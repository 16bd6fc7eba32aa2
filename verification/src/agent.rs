//! Per-agent state and the finite-state machine driving civilian and hunter
//! behaviour.  One machine serves both kinds, parameterised by a kind tag
//! with per-kind speed constants and attack modality; the predator/prey
//! relationship to the player flips with the day/night cycle.

use vstd::prelude::*;

verus! {

use crate::combat::HIT_DAMAGE;
use crate::combat::calculate_intercept;
use crate::combat::icpt_point_x;
use crate::combat::icpt_point_y;
use crate::combat::icpt_shoots;
use crate::geom::Pos;
use crate::geom::WorldVec;
use crate::grid::TrespassableCells;
use crate::motion::NpcVelAccum;
use crate::motion::SPEED_LIMIT;
use crate::motion::spec_advance;
use crate::pathfind::chase_path;
use crate::pathfind::escape_path;
use crate::pathfind::path_minimal;
use crate::pathfind::path_ok;
use crate::pathfind::pathfinder;
use crate::pathfind::spec_escaped;
use crate::percept::can_see;
use crate::percept::spec_can_see;
use crate::transform::TransformToGrid;
use vstd::math::abs;

/// The behavioural state of one NPC.  `Dead` is terminal.
#[derive(Clone, Copy, PartialEq, Eq, Debug, Structural)]
pub enum NpcState {
    Attack,
    Escape,
    Chase,
    Look,
    Chill,
    Dead,
}

/// The two agent flavours; they share one state machine but differ in
/// speed constants and attack modality (melee versus ranged throw).
#[derive(Clone, Copy, PartialEq, Eq, Debug, Structural)]
pub enum NpcKind {
    Civilian,
    Hunter,
}

/// A cardinal facing direction, emitted as an animation intent.
#[derive(Clone, Copy, PartialEq, Eq, Debug, Structural)]
pub enum Direction {
    Up,
    Down,
    Left,
    Right,
}

/// Distance (milli-pixels) under which an attacking hunter backs away.
pub const THRESHOLD: i64 = 100_000;

/// Distance (milli-pixels) under which an attacking hunter re-chases.
pub const UPP_THRESHOLD: i64 = 200_000;

/// Melee reach (milli-pixels) of a civilian's strike.
pub const MELEE_RANGE: i64 = 16_000;

/// Speed (milli-pixels per second) of a thrown projectile.
pub const PROJ_SPEED: i64 = 150_000;

pub const CIV_MAXSPEED: i64 = 40_000;

pub const CIV_ACCEL: i64 = 350_000;

pub const HUNTER_MAXSPEED: i64 = 50_000;

pub const HUNTER_ACCEL: i64 = 450_000;

/// Period of the idle wander timer.
pub const CHILL_PERIOD_MS: u32 = 1_000;

/// Wind-up period of the civilian melee strike.
pub const ATTACK_PERIOD_MS: u32 = 500;

/// Cadence of the hunter's throw.
pub const HUNTER_PERIOD_MS: u32 = 500;

/// Chebyshev radius of the idle wander, in cells.
pub const WANDER_RANGE: i32 = 4;

/// Squared speed (milli-pixels per second) above which the walk animation
/// plays instead of idle.
pub const WALK_EPS2: i64 = 10_000;

/// Axis deadzone (milli-pixels) of the movement facing rule.
pub const FACE_EPS: i64 = 100;

/// An explicit repeating countdown: decremented by an externally supplied
/// `dt`, firing (and restarting at its period) when the remainder is spent.
pub struct CountdownTimer {
    pub remaining_ms: u32,
    pub period_ms: u32,
}

impl CountdownTimer {
    pub open spec fn wf(self) -> bool {
        1 <= self.period_ms && self.remaining_ms <= self.period_ms
    }

    pub fn new(period_ms: u32) -> (r: CountdownTimer)
        requires
            1 <= period_ms,
        ensures
            r == (CountdownTimer { remaining_ms: period_ms, period_ms }),
            r.wf(),
    {
        CountdownTimer { remaining_ms: period_ms, period_ms }
    }

    /// Advance the countdown by `dt_ms`; reports whether it fired, in which
    /// case it restarts at its period.
    pub fn tick(&mut self, dt_ms: u32) -> (fired: bool)
        requires
            old(self).wf(),
        ensures
            final(self).wf(),
            fired == (dt_ms >= old(self).remaining_ms),
            *final(self) == spec_ticked(*old(self), dt_ms),
    {
        if dt_ms >= self.remaining_ms {
            self.remaining_ms = self.period_ms;
            true
        } else {
            self.remaining_ms = self.remaining_ms - dt_ms;
            false
        }
    }
}

/// One advance of a countdown by `dt_ms`: it restarts at its period when
/// the remainder is spent, else the remainder shrinks by `dt_ms`.
pub open spec fn spec_ticked(t: CountdownTimer, dt_ms: u32) -> CountdownTimer {
    if dt_ms >= t.remaining_ms {
        CountdownTimer { remaining_ms: t.period_ms, period_ms: t.period_ms }
    } else {
        CountdownTimer { remaining_ms: (t.remaining_ms - dt_ms) as u32, period_ms: t.period_ms }
    }
}

/// The optional path an agent is consuming, always at least two cells long
/// while present.
pub struct NpcPath {
    pub path: Option<Vec<Pos>>,
}

impl NpcPath {
    pub open spec fn wf(self) -> bool {
        match self.path {
            None => true,
            Some(p) => p@.len() >= 2 && (forall|i: int|
                0 <= i < p@.len() ==> (#[trigger] p@[i]).in_cell_range()),
        }
    }

    pub fn none() -> (r: NpcPath)
        ensures
            r.path is None,
            r.wf(),
    {
        NpcPath { path: None }
    }

    /// One movement-consumption step: pop the head cell once the agent's
    /// current cell equals the second cell, and discard the whole path when
    /// fewer than two cells remain (arrival).
    pub fn consume(&mut self, current_cell: Pos)
        requires
            old(self).wf(),
        ensures
            final(self).wf(),
            spec_consumed(*old(self), *final(self), current_cell),
    {
        let mut drop_all = false;
        match &mut self.path {
            Some(p) => {
                let second = p[1];
                if current_cell.x == second.x && current_cell.y == second.y {
                    p.remove(0);
                }
                if p.len() < 2 {
                    drop_all = true;
                }
            },
            None => {},
        }
        if drop_all {
            self.path = None;
        }
    }
}

/// The movement-consumption policy as a relation between the path before
/// and after one step at `current_cell`: the head is popped exactly when
/// the agent stands on the second cell, and a path left shorter than two
/// cells is discarded.
pub open spec fn spec_consumed(p0: NpcPath, p1: NpcPath, current_cell: Pos) -> bool {
    match p0.path {
        None => p1.path is None,
        Some(p) => if current_cell != p@[1] {
            p1.path == p0.path
        } else if p@.len() == 2 {
            p1.path is None
        } else {
            p1.path matches Some(q) && q@ == p@.drop_first()
        },
    }
}

/// The grid cell where the player was last seen, recorded when sight is
/// lost during a chase.
pub struct PlayerLastPos {
    pub pos: Pos,
}

/// Per-kind movement constants.
pub struct SpeedCfg {
    pub max_speed: i64,
    pub accel: i64,
}

/// The speed constants of each agent kind.
pub fn kind_cfg(kind: NpcKind) -> (r: SpeedCfg)
    ensures
        r.max_speed == spec_kind_max(kind),
        r.accel == spec_kind_accel(kind),
        0 < r.max_speed <= SPEED_LIMIT,
        0 <= r.accel <= SPEED_LIMIT,
{
    match kind {
        NpcKind::Civilian => SpeedCfg { max_speed: CIV_MAXSPEED, accel: CIV_ACCEL },
        NpcKind::Hunter => SpeedCfg { max_speed: HUNTER_MAXSPEED, accel: HUNTER_ACCEL },
    }
}

pub open spec fn spec_kind_max(kind: NpcKind) -> int {
    match kind {
        NpcKind::Civilian => CIV_MAXSPEED as int,
        NpcKind::Hunter => HUNTER_MAXSPEED as int,
    }
}

pub open spec fn spec_kind_accel(kind: NpcKind) -> int {
    match kind {
        NpcKind::Civilian => CIV_ACCEL as int,
        NpcKind::Hunter => HUNTER_ACCEL as int,
    }
}

/// Read-only snapshot of the player and day cycle, taken once per tick.
pub struct PlayerSnapshot {
    pub pos: WorldVec,
    pub vel: WorldVec,
    pub entity: u64,
    pub is_night: bool,
}

impl PlayerSnapshot {
    pub open spec fn wf(self) -> bool {
        &&& self.pos.in_world_range()
        &&& -SPEED_LIMIT <= self.vel.x <= SPEED_LIMIT
        &&& -SPEED_LIMIT <= self.vel.y <= SPEED_LIMIT
    }
}

/// Per-agent per-tick input from the collaborators: the raycast oracle's
/// answer for this agent's line of sight, and the frame delta.
pub struct TickInput {
    pub raycast_hit: Option<u64>,
    pub dt_ms: u32,
}

/// What one tick of the state machine asks of the collaborators.
pub struct TickIntents {
    /// Velocity handed verbatim to the external mover.
    pub velocity: WorldVec,
    /// Cardinal facing intent for the animation collaborator, if any.
    pub facing: Option<Direction>,
    /// Walk (`true`) versus idle (`false`) locomotion intent.
    pub walking: bool,
    /// Melee damage dealt to the player this tick.
    pub damage_to_player: u32,
    /// Intercept point to throw a projectile at, if a shot is taken.
    pub throw_at: Option<WorldVec>,
    /// Whether this tick asked the pathfinder for a path.
    pub path_requested: bool,
    /// Whether that request produced one.
    pub path_found: bool,
    /// Whether the state's timer fired this tick.
    pub timer_fired: bool,
}

/// One NPC: its kind tag, behavioural state, world position (owned by the
/// external physics, read each tick), velocity accumulator, current path,
/// last-known player cell and timers.
pub struct Agent {
    pub kind: NpcKind,
    pub state: NpcState,
    pub pos: WorldVec,
    pub vel_accum: NpcVelAccum,
    pub path: NpcPath,
    pub last_player_pos: PlayerLastPos,
    pub chill_timer: CountdownTimer,
    pub attack_timer: CountdownTimer,
    pub hunter_timer: CountdownTimer,
}

impl Agent {
    pub open spec fn wf(self) -> bool {
        &&& self.pos.in_world_range()
        &&& self.vel_accum.in_speed_range()
        &&& self.path.wf()
        &&& self.last_player_pos.pos.in_cell_range()
        &&& self.chill_timer.wf()
        &&& self.attack_timer.wf()
        &&& self.hunter_timer.wf()
    }

    /// A freshly spawned agent of the given kind: idle, at rest, pathless.
    pub fn spawn(kind: NpcKind, pos: WorldVec) -> (r: Agent)
        requires
            pos.in_world_range(),
        ensures
            r.wf(),
            r.kind == kind,
            r.state == NpcState::Chill,
            r.pos == pos,
            r.path.path is None,
            r.vel_accum.v == (WorldVec { x: 0, y: 0 }),
            r.last_player_pos.pos == (Pos { x: 0, y: 0 }),
            r.chill_timer == (CountdownTimer {
                remaining_ms: CHILL_PERIOD_MS,
                period_ms: CHILL_PERIOD_MS,
            }),
            r.attack_timer == (CountdownTimer {
                remaining_ms: ATTACK_PERIOD_MS,
                period_ms: ATTACK_PERIOD_MS,
            }),
            r.hunter_timer == (CountdownTimer {
                remaining_ms: HUNTER_PERIOD_MS,
                period_ms: HUNTER_PERIOD_MS,
            }),
    {
        Agent {
            kind,
            state: NpcState::Chill,
            pos,
            vel_accum: NpcVelAccum::zero(),
            path: NpcPath::none(),
            last_player_pos: PlayerLastPos { pos: Pos { x: 0, y: 0 } },
            chill_timer: CountdownTimer::new(CHILL_PERIOD_MS),
            attack_timer: CountdownTimer::new(ATTACK_PERIOD_MS),
            hunter_timer: CountdownTimer::new(HUNTER_PERIOD_MS),
        }
    }
}

/// The transition table of the state machine.  `sees` is the perception
/// verdict, `night` the day-cycle phase, `repath_failed` whether the
/// pathfinder request this state makes came back empty, `timer_fired`
/// whether the state's timer fired, and `dist2` the squared distance to the
/// player.  The day/night polarity rule is applied at every Chill, Look,
/// Chase and Escape transition point: a sighting by day turns toward Chase,
/// by night toward Escape.
pub open spec fn spec_next_state(
    kind: NpcKind,
    state: NpcState,
    sees: bool,
    night: bool,
    repath_failed: bool,
    timer_fired: bool,
    dist2: int,
) -> NpcState {
    match state {
        NpcState::Dead => NpcState::Dead,
        NpcState::Attack => match kind {
            NpcKind::Civilian => if timer_fired {
                NpcState::Chase
            } else {
                NpcState::Attack
            },
            NpcKind::Hunter => if !sees {
                NpcState::Look
            } else if dist2 < THRESHOLD * THRESHOLD {
                NpcState::Escape
            } else if dist2 < UPP_THRESHOLD * UPP_THRESHOLD {
                NpcState::Chase
            } else {
                NpcState::Attack
            },
        },
        NpcState::Chill => if sees {
            if night {
                NpcState::Escape
            } else {
                NpcState::Chase
            }
        } else {
            NpcState::Chill
        },
        NpcState::Look => if sees {
            if night {
                NpcState::Escape
            } else {
                NpcState::Chase
            }
        } else if repath_failed {
            NpcState::Chill
        } else {
            NpcState::Look
        },
        NpcState::Chase => if !sees {
            NpcState::Look
        } else if night {
            NpcState::Escape
        } else if repath_failed {
            NpcState::Attack
        } else {
            NpcState::Chase
        },
        NpcState::Escape => if !night {
            if sees {
                NpcState::Chase
            } else {
                NpcState::Chill
            }
        } else {
            NpcState::Escape
        },
    }
}

/// Whether a state repaths this tick, given the perception verdict and
/// phase (the idle wander additionally needs its timer and an open target
/// cell, so for `Chill` this only bounds the request from above; an
/// escaping agent re-requests its flight path on every tick).
pub open spec fn spec_repaths(state: NpcState, sees: bool, night: bool) -> bool {
    match state {
        NpcState::Chill => !sees,
        NpcState::Look => !sees,
        NpcState::Chase => sees && !night,
        NpcState::Escape => true,
        _ => false,
    }
}

/// Which timer (if any) a state consults this tick, and whether it fires:
/// the melee wind-up or throw cadence in Attack, the wander timer in an
/// idle, sightless, pathless Chill, and none elsewhere.
pub open spec fn spec_timer_fires(a: Agent, player: PlayerSnapshot, input: TickInput) -> bool {
    match a.state {
        NpcState::Attack => match a.kind {
            NpcKind::Civilian => input.dt_ms >= a.attack_timer.remaining_ms,
            NpcKind::Hunter => input.dt_ms >= a.hunter_timer.remaining_ms,
        },
        NpcState::Chill => !spec_can_see(
            input.raycast_hit,
            player.entity,
            a.pos.spec_dist2(player.pos),
        ) && a.path.path is None && input.dt_ms >= a.chill_timer.remaining_ms,
        _ => false,
    }
}

/// The states that consume a path and move (all non-terminal, non-Attack
/// states).
pub open spec fn spec_moving(state: NpcState) -> bool {
    match state {
        NpcState::Chill | NpcState::Look | NpcState::Chase | NpcState::Escape => true,
        _ => false,
    }
}

/// The facing rule while moving: the x axis is prioritised; strictly
/// inside its deadzone a sufficiently vertical motion faces up or down.
pub open spec fn spec_move_facing(dx: int, dy: int) -> Option<Direction> {
    if -FACE_EPS < dx < FACE_EPS {
        if dy > FACE_EPS {
            Some(Direction::Up)
        } else if dy < -FACE_EPS {
            Some(Direction::Down)
        } else {
            None
        }
    } else if dx > 0 {
        Some(Direction::Right)
    } else {
        Some(Direction::Left)
    }
}

/// The facing rule of a standing attacker: the dominant axis wins.
pub open spec fn spec_attack_facing(dx: int, dy: int) -> Direction {
    if abs(dx) > abs(dy) {
        if dx > 0 {
            Direction::Right
        } else {
            Direction::Left
        }
    } else {
        if dy > 0 {
            Direction::Up
        } else {
            Direction::Down
        }
    }
}

/// Law: the day/night polarity of every sighting transition.  From Chill or
/// Look, a sighting by day leads to Chase and never Escape, by night to
/// Escape and never Chase; a chasing agent flips to Escape when night falls
/// on a sighting, and an escaping agent flips back to Chase on a daytime
/// sighting — for both kinds, whatever the other inputs.
pub proof fn lemma_sighting_polarity(
    kind: NpcKind,
    repath_failed: bool,
    timer_fired: bool,
    dist2: int,
)
    ensures
        spec_next_state(kind, NpcState::Chill, true, false, repath_failed, timer_fired, dist2)
            == NpcState::Chase,
        spec_next_state(kind, NpcState::Chill, true, true, repath_failed, timer_fired, dist2)
            == NpcState::Escape,
        spec_next_state(kind, NpcState::Look, true, false, repath_failed, timer_fired, dist2)
            == NpcState::Chase,
        spec_next_state(kind, NpcState::Look, true, true, repath_failed, timer_fired, dist2)
            == NpcState::Escape,
        spec_next_state(kind, NpcState::Escape, true, false, repath_failed, timer_fired, dist2)
            == NpcState::Chase,
        spec_next_state(kind, NpcState::Chase, true, true, repath_failed, timer_fired, dist2)
            == NpcState::Escape,
{
}

/// Law: `Dead` is terminal — no inputs move an agent out of it.
pub proof fn lemma_dead_is_terminal(
    kind: NpcKind,
    sees: bool,
    night: bool,
    repath_failed: bool,
    timer_fired: bool,
    dist2: int,
)
    ensures
        spec_next_state(kind, NpcState::Dead, sees, night, repath_failed, timer_fired, dist2)
            == NpcState::Dead,
{
}

/// Relies on `rand`'s thread-local generator: `Rng::gen_range(lo..hi)`
/// returns a value of the half-open range and panics only when the range is
/// empty, which the precondition rules out.  Nothing more is assumed of the
/// sampled value.
#[verifier::external_body]
fn rand_range(lo: i32, hi: i32) -> (r: i32)
    requires
        lo < hi,
    ensures
        lo <= r < hi,
{
    rand::Rng::gen_range(&mut rand::thread_rng(), lo..hi)
}

/// Compute the facing intent for a movement vector.
fn move_facing(dx: i64, dy: i64) -> (r: Option<Direction>)
    ensures
        r == spec_move_facing(dx as int, dy as int),
{
    if -FACE_EPS < dx && dx < FACE_EPS {
        if dy > FACE_EPS {
            Some(Direction::Up)
        } else if dy < -FACE_EPS {
            Some(Direction::Down)
        } else {
            None
        }
    } else if dx > 0 {
        Some(Direction::Right)
    } else {
        Some(Direction::Left)
    }
}

/// Compute the facing intent of a standing attacker.
fn attack_facing(dx: i64, dy: i64) -> (r: Direction)
    requires
        -0x4000_0000_0000_0000 < dx < 0x4000_0000_0000_0000,
        -0x4000_0000_0000_0000 < dy < 0x4000_0000_0000_0000,
    ensures
        r == spec_attack_facing(dx as int, dy as int),
{
    let ax: i64 = if dx >= 0 {
        dx
    } else {
        -dx
    };
    let ay: i64 = if dy >= 0 {
        dy
    } else {
        -dy
    };
    if ax > ay {
        if dx > 0 {
            Direction::Right
        } else {
            Direction::Left
        }
    } else {
        if dy > 0 {
            Direction::Up
        } else {
            Direction::Down
        }
    }
}

/// Create one civilian at a world position, with the initial component
/// values a spawner hands the engine: idle state, fresh timers, no path and
/// a zero velocity accumulator.
pub fn spawn_civilian(pos: WorldVec) -> (r: Agent)
    requires
        pos.in_world_range(),
    ensures
        r.wf(),
        r.kind == NpcKind::Civilian,
        r.state == NpcState::Chill,
        r.pos == pos,
{
    Agent::spawn(NpcKind::Civilian, pos)
}

/// Create one hunter at a world position, as `spawn_civilian` does for
/// civilians.
pub fn spawn_hunter(pos: WorldVec) -> (r: Agent)
    requires
        pos.in_world_range(),
    ensures
        r.wf(),
        r.kind == NpcKind::Hunter,
        r.state == NpcState::Chill,
        r.pos == pos,
{
    Agent::spawn(NpcKind::Hunter, pos)
}

/// Everything one tick guarantees of one agent, as a relation between the
/// agent before (`a0`) and after (`a1`) and the returned intents `o`:
/// well-formedness, the untouched kind and position, the transition table
/// with the reported repath and timer witnesses, the exact timer evolution,
/// the path-request discipline and per-intent path contracts (tied to the
/// pathfinder's real verdict where that verdict is deterministic), the
/// movement-consumption step, melee damage, the throw intent with its
/// intercept point, last-known-position memory, the movement-integrator
/// linkage and speed bound, and the facing and locomotion intents.
pub open spec fn spec_tick_rel(
    a0: Agent,
    a1: Agent,
    o: TickIntents,
    player: PlayerSnapshot,
    input: TickInput,
    trespassable: TrespassableCells,
    transformer: TransformToGrid,
) -> bool {
    let sees = spec_can_see(input.raycast_hit, player.entity, a0.pos.spec_dist2(player.pos));
    let night = player.is_night;
    let dist2 = a0.pos.spec_dist2(player.pos);
    let g = trespassable.grid();
    let ready = trespassable.ready && transformer.ready;
    let acell = transformer.spec_from_world(a0.pos);
    let pcell = transformer.spec_from_world(player.pos);
    &&& a1.wf()
    &&& a1.kind == a0.kind
    &&& a1.pos == a0.pos
    &&& a1.state == spec_next_state(
        a0.kind,
        a0.state,
        sees,
        night,
        o.path_requested && !o.path_found,
        o.timer_fired,
        dist2,
    )
    &&& o.timer_fired == spec_timer_fires(a0, player, input)
    &&& a1.attack_timer == (if a0.kind == NpcKind::Civilian && a0.state == NpcState::Attack {
        spec_ticked(a0.attack_timer, input.dt_ms)
    } else {
        a0.attack_timer
    })
    &&& a1.hunter_timer == (if a0.kind == NpcKind::Hunter && a0.state == NpcState::Attack {
        spec_ticked(a0.hunter_timer, input.dt_ms)
    } else {
        a0.hunter_timer
    })
    &&& a1.chill_timer == (if a0.state == NpcState::Chill && !sees && a0.path.path is None {
        spec_ticked(a0.chill_timer, input.dt_ms)
    } else {
        a0.chill_timer
    })
    &&& (o.path_requested ==> spec_repaths(a0.state, sees, night))
    &&& (a0.state == NpcState::Look || a0.state == NpcState::Chase || a0.state == NpcState::Escape
        ==> o.path_requested == spec_repaths(a0.state, sees, night))
    &&& (o.path_found ==> o.path_requested)
    &&& (o.path_found ==> (a1.path.path matches Some(p) && path_ok(g, p@) && p@.first() == acell))
    &&& (o.path_requested && !o.path_found ==> a1.path.path is None)
    &&& (spec_moving(a0.state) && !o.path_requested ==> spec_consumed(a0.path, a1.path, acell))
    &&& (!spec_moving(a0.state) ==> a1.path == a0.path)
    &&& (o.path_found && a0.state == NpcState::Look ==> (a1.path.path matches Some(p)
        && chase_path(g, p@, acell, a0.last_player_pos.pos) && path_minimal(
        g,
        p@,
        acell,
        a0.last_player_pos.pos,
    )))
    &&& (a0.state == NpcState::Look && !sees && ready ==> (o.path_found <==> (exists|q: Seq<Pos>|
        #[trigger] chase_path(g, q, acell, a0.last_player_pos.pos)) && acell
        != a0.last_player_pos.pos))
    &&& (o.path_found && a0.state == NpcState::Chase ==> (a1.path.path matches Some(p) && (exists|
        q: Seq<Pos>,
    |
        #[trigger] chase_path(g, q, acell, pcell) && path_minimal(g, q, acell, pcell) && q.len()
            > 5 && p@ == q.take(q.len() - 4))))
    &&& (a0.state == NpcState::Chase && sees && !night && ready && !o.path_found ==> !(exists|
        q: Seq<Pos>,
    | #[trigger] chase_path(g, q, acell, pcell)) || (exists|q: Seq<Pos>|
        #[trigger] chase_path(g, q, acell, pcell) && path_minimal(g, q, acell, pcell) && q.len()
            <= 5))
    &&& (o.path_found && a0.state == NpcState::Escape ==> (a1.path.path matches Some(p)
        && escape_path(g, p@, acell, pcell)))
    &&& (a0.state == NpcState::Escape && ready ==> (o.path_found <==> (exists|q: Seq<Pos>|
        #[trigger] escape_path(g, q, acell, pcell)) && !spec_escaped(acell, pcell)))
    &&& (o.path_found && a0.state == NpcState::Chill ==> (a1.path.path matches Some(p) && (exists|
        t: Pos,
    |
        #[trigger] chase_path(g, p@, acell, t) && -(WANDER_RANGE as int) <= t.x - acell.x
            < WANDER_RANGE && -(WANDER_RANGE as int) <= t.y - acell.y < WANDER_RANGE)))
    &&& o.damage_to_player == (if a0.kind == NpcKind::Civilian && a0.state == NpcState::Attack
        && o.timer_fired && dist2 < MELEE_RANGE * MELEE_RANGE {
        HIT_DAMAGE
    } else {
        0u32
    })
    &&& (o.throw_at matches Some(i) ==> a0.kind == NpcKind::Hunter && a0.state == NpcState::Attack
        && o.timer_fired && sees && i.x == icpt_point_x(
        a0.pos,
        player.pos,
        player.vel,
        PROJ_SPEED as int,
    ) && i.y == icpt_point_y(a0.pos, player.pos, player.vel, PROJ_SPEED as int))
    &&& (a0.kind == NpcKind::Hunter && a0.state == NpcState::Attack && o.timer_fired && sees ==> ((
    o.throw_at is Some) <==> icpt_shoots(a0.pos, player.pos, player.vel, PROJ_SPEED as int)))
    &&& a1.last_player_pos.pos == (if (a0.state == NpcState::Chase || (a0.kind == NpcKind::Hunter
        && a0.state == NpcState::Attack)) && !sees {
        pcell
    } else {
        a0.last_player_pos.pos
    })
    &&& o.velocity.spec_len2() <= spec_kind_max(a0.kind) * spec_kind_max(a0.kind)
    &&& o.velocity == (if spec_moving(a0.state) && a1.path.path is Some {
        a1.vel_accum.v
    } else {
        WorldVec { x: 0, y: 0 }
    })
    &&& (spec_moving(a0.state) ==> (a1.path.path matches Some(p) ==> a1.vel_accum.v
        == spec_advance(
        a0.vel_accum.v,
        (WorldVec {
            x: (transformer.spec_to_world(p@[1]).x - a0.pos.x) as i64,
            y: (transformer.spec_to_world(p@[1]).y - a0.pos.y) as i64,
        }),
        spec_kind_max(a0.kind),
        spec_kind_accel(a0.kind) * input.dt_ms / 1000,
    )))
    &&& (!(spec_moving(a0.state) && a1.path.path is Some) ==> a1.vel_accum == a0.vel_accum)
    &&& o.walking == (spec_moving(a0.state) && a1.path.path is Some && a0.vel_accum.v.spec_len2()
        > WALK_EPS2)
    &&& (a0.kind == NpcKind::Hunter && a0.state == NpcState::Attack ==> o.facing == Some(
        spec_attack_facing(player.pos.x - a0.pos.x, player.pos.y - a0.pos.y),
    ))
    &&& (spec_moving(a0.state) ==> (a1.path.path matches Some(p) ==> o.facing == spec_move_facing(
        transformer.spec_to_world(p@[1]).x - a0.pos.x,
        transformer.spec_to_world(p@[1]).y - a0.pos.y,
    )))
    &&& (spec_moving(a0.state) && a1.path.path is None ==> o.facing is None)
    &&& (a0.state == NpcState::Dead || (a0.kind == NpcKind::Civilian && a0.state
        == NpcState::Attack) ==> o.facing is None)
}

/// One simulation tick of one agent: perception, the state transition (with
/// any pathfinding the state calls for), path consumption, and movement
/// integration.  Returns the intents for the external collaborators.
#[verifier::rlimit(100)]
pub fn npc_tick(agent: &mut Agent, player: &PlayerSnapshot, input: &TickInput, trespassable: &TrespassableCells, transformer: &TransformToGrid) -> (out: TickIntents)
    requires
        old(agent).wf(),
        player.wf(),
        trespassable.wf(),
        transformer.wf(),
        input.dt_ms <= 1000,
    ensures
        spec_tick_rel(
            *old(agent),
            *final(agent),
            out,
            *player,
            *input,
            *trespassable,
            *transformer,
        ),
{
    let ghost a0 = *agent;
    let dist2: i64 = agent.pos.dist2(player.pos);
    let sees = can_see(input.raycast_hit, player.entity, agent.pos, player.pos);
    let agent_cell = transformer.from_world(agent.pos);
    let player_cell = transformer.from_world(player.pos);
    let cfg = kind_cfg(agent.kind);
    let old_state = agent.state;
    let night = player.is_night;

    let mut timer_fired = false;
    let mut path_requested = false;
    let mut path_found = false;
    let mut damage: u32 = 0;
    let mut throw_at: Option<WorldVec> = None;
    let mut next_state = agent.state;

    match old_state {
        NpcState::Dead => {},
        NpcState::Attack => {
            match agent.kind {
                NpcKind::Civilian => {
                    timer_fired = agent.attack_timer.tick(input.dt_ms);
                    if timer_fired {
                        if dist2 < MELEE_RANGE * MELEE_RANGE {
                            damage = HIT_DAMAGE;
                        }
                        next_state = NpcState::Chase;
                    }
                },
                NpcKind::Hunter => {
                    timer_fired = agent.hunter_timer.tick(input.dt_ms);
                    if sees {
                        if timer_fired {
                            throw_at = calculate_intercept(
                                agent.pos,
                                player.pos,
                                player.vel,
                                PROJ_SPEED,
                            );
                        }
                        if dist2 < THRESHOLD * THRESHOLD {
                            next_state = NpcState::Escape;
                        } else if dist2 < UPP_THRESHOLD * UPP_THRESHOLD {
                            next_state = NpcState::Chase;
                        }
                    } else {
                        next_state = NpcState::Look;
                        agent.last_player_pos.pos = player_cell;
                    }
                },
            }
        },
        NpcState::Chill => {
            if sees {
                next_state = if night {
                    NpcState::Escape
                } else {
                    NpcState::Chase
                };
            } else {
                if agent.path.path.is_none() {
                    timer_fired = agent.chill_timer.tick(input.dt_ms);
                    if timer_fired {
                        let ox = rand_range(-WANDER_RANGE, WANDER_RANGE);
                        let oy = rand_range(-WANDER_RANGE, WANDER_RANGE);
                        let target = Pos { x: agent_cell.x + ox, y: agent_cell.y + oy };
                        if trespassable.is_trespassable(&target) {
                            path_requested = true;
                            let found = pathfinder(
                                agent_cell,
                                target,
                                trespassable,
                                transformer,
                                NpcState::Chill,
                            );
                            path_found = found.is_some();
                            agent.path.path = found;
                        }
                    }
                }
            }
        },
        NpcState::Look => {
            if sees {
                next_state = if night {
                    NpcState::Escape
                } else {
                    NpcState::Chase
                };
            } else {
                path_requested = true;
                let found = pathfinder(
                    agent_cell,
                    agent.last_player_pos.pos,
                    trespassable,
                    transformer,
                    NpcState::Look,
                );
                path_found = found.is_some();
                agent.path.path = found;
                if !path_found {
                    next_state = NpcState::Chill;
                }
            }
        },
        NpcState::Chase => {
            if !sees {
                next_state = NpcState::Look;
                agent.last_player_pos.pos = player_cell;
            } else if night {
                next_state = NpcState::Escape;
            } else {
                path_requested = true;
                let found = pathfinder(
                    agent_cell,
                    player_cell,
                    trespassable,
                    transformer,
                    NpcState::Chase,
                );
                path_found = found.is_some();
                agent.path.path = found;
                if !path_found {
                    next_state = NpcState::Attack;
                }
            }
        },
        NpcState::Escape => {
            path_requested = true;
            let found = pathfinder(
                agent_cell,
                player_cell,
                trespassable,
                transformer,
                NpcState::Escape,
            );
            path_found = found.is_some();
            agent.path.path = found;
            if !night {
                next_state = if sees {
                    NpcState::Chase
                } else {
                    NpcState::Chill
                };
            }
        },
    }

    let mut velocity = WorldVec { x: 0, y: 0 };
    let mut facing: Option<Direction> = None;
    let mut walking = false;
    let moving_state = match old_state {
        NpcState::Chill | NpcState::Look | NpcState::Chase | NpcState::Escape => true,
        _ => false,
    };
    if moving_state {
        proof {
            if path_found {
                let p = agent.path.path.unwrap();
                assert(crate::pathfind::path_step_at(trespassable.grid(), p@, 0));
                assert(crate::pathfind::step_ok(trespassable.grid(), p@[0], p@[1]));
                assert(p@[0] == agent_cell && p@[1] != agent_cell);
            }
        }
        agent.path.consume(agent_cell);
        let step_cell: Option<Pos> = match &agent.path.path {
            Some(p) => Some(p[1]),
            None => None,
        };
        match step_cell {
            Some(cell) => {
                let tw = transformer.to_world(cell);
                let mdx: i64 = tw.x - agent.pos.x;
                let mdy: i64 = tw.y - agent.pos.y;
                facing = move_facing(mdx, mdy);
                walking = agent.vel_accum.v.len2() > WALK_EPS2;
                agent.vel_accum.advance(
                    WorldVec { x: mdx, y: mdy },
                    cfg.max_speed,
                    cfg.accel,
                    input.dt_ms,
                );
                velocity = agent.vel_accum.v;
            },
            None => {},
        }
    } else if agent.kind == NpcKind::Hunter && old_state == NpcState::Attack {
        let fdx: i64 = player.pos.x - agent.pos.x;
        let fdy: i64 = player.pos.y - agent.pos.y;
        facing = Some(attack_facing(fdx, fdy));
    }
    agent.state = next_state;
    proof {
        assert(0 <= spec_kind_max(a0.kind) * spec_kind_max(a0.kind)) by (nonlinear_arith)
            requires
                spec_kind_max(a0.kind) > 0,
        ;
    }
    TickIntents {
        velocity,
        facing,
        walking,
        damage_to_player: damage,
        throw_at,
        path_requested,
        path_found,
        timer_fired,
    }
}

/// One tick over every civilian: each agent is updated by `npc_tick` with
/// its own raycast answer, against the shared grid, transform and player
/// snapshot.
pub fn manage_civilians(agents: &mut Vec<Agent>, inputs: &Vec<TickInput>, player: &PlayerSnapshot, trespassable: &TrespassableCells, transformer: &TransformToGrid) -> (outs: Vec<TickIntents>)
    requires
        old(agents)@.len() == inputs@.len(),
        forall|i: int| 0 <= i < old(agents)@.len() ==> (#[trigger] old(agents)@[i]).wf(),
        forall|i: int|
            0 <= i < old(agents)@.len() ==> (#[trigger] old(agents)@[i]).kind == NpcKind::Civilian,
        forall|i: int| 0 <= i < inputs@.len() ==> (#[trigger] inputs@[i]).dt_ms <= 1000,
        player.wf(),
        trespassable.wf(),
        transformer.wf(),
    ensures
        final(agents)@.len() == old(agents)@.len(),
        outs@.len() == old(agents)@.len(),
        forall|i: int|
            0 <= i < old(agents)@.len() ==> #[trigger] spec_tick_rel(
                old(agents)@[i],
                final(agents)@[i],
                outs@[i],
                *player,
                inputs@[i],
                *trespassable,
                *transformer,
            ),
{
    tick_all(agents, inputs, player, trespassable, transformer)
}

/// One tick over every hunter, as `manage_civilians` over civilians.
pub fn manage_hunters(agents: &mut Vec<Agent>, inputs: &Vec<TickInput>, player: &PlayerSnapshot, trespassable: &TrespassableCells, transformer: &TransformToGrid) -> (outs: Vec<TickIntents>)
    requires
        old(agents)@.len() == inputs@.len(),
        forall|i: int| 0 <= i < old(agents)@.len() ==> (#[trigger] old(agents)@[i]).wf(),
        forall|i: int|
            0 <= i < old(agents)@.len() ==> (#[trigger] old(agents)@[i]).kind == NpcKind::Hunter,
        forall|i: int| 0 <= i < inputs@.len() ==> (#[trigger] inputs@[i]).dt_ms <= 1000,
        player.wf(),
        trespassable.wf(),
        transformer.wf(),
    ensures
        final(agents)@.len() == old(agents)@.len(),
        outs@.len() == old(agents)@.len(),
        forall|i: int|
            0 <= i < old(agents)@.len() ==> #[trigger] spec_tick_rel(
                old(agents)@[i],
                final(agents)@[i],
                outs@[i],
                *player,
                inputs@[i],
                *trespassable,
                *transformer,
            ),
{
    tick_all(agents, inputs, player, trespassable, transformer)
}

/// Tick every agent of a table in order.
fn tick_all(agents: &mut Vec<Agent>, inputs: &Vec<TickInput>, player: &PlayerSnapshot, trespassable: &TrespassableCells, transformer: &TransformToGrid) -> (outs: Vec<TickIntents>)
    requires
        old(agents)@.len() == inputs@.len(),
        forall|i: int| 0 <= i < old(agents)@.len() ==> (#[trigger] old(agents)@[i]).wf(),
        forall|i: int| 0 <= i < inputs@.len() ==> (#[trigger] inputs@[i]).dt_ms <= 1000,
        player.wf(),
        trespassable.wf(),
        transformer.wf(),
    ensures
        final(agents)@.len() == old(agents)@.len(),
        outs@.len() == old(agents)@.len(),
        forall|i: int|
            0 <= i < old(agents)@.len() ==> #[trigger] spec_tick_rel(
                old(agents)@[i],
                final(agents)@[i],
                outs@[i],
                *player,
                inputs@[i],
                *trespassable,
                *transformer,
            ),
{
    let mut outs: Vec<TickIntents> = Vec::new();
    let n = agents.len();
    for k in 0..n
        invariant
            agents@.len() == n,
            inputs@.len() == n,
            n == old(agents)@.len(),
            outs@.len() == k,
            forall|i: int| k <= i < n ==> agents@[i] == old(agents)@[i],
            forall|i: int|
                0 <= i < k ==> #[trigger] spec_tick_rel(
                    old(agents)@[i],
                    agents@[i],
                    outs@[i],
                    *player,
                    inputs@[i],
                    *trespassable,
                    *transformer,
                ),
            forall|i: int| 0 <= i < n ==> (#[trigger] old(agents)@[i]).wf(),
            forall|i: int| 0 <= i < n ==> (#[trigger] inputs@[i]).dt_ms <= 1000,
            player.wf(),
            trespassable.wf(),
            transformer.wf(),
    {
        let o = npc_tick(&mut agents[k], player, &inputs[k], trespassable, transformer);
        outs.push(o);
    }
    outs
}

/// Project every agent's world transform into grid space and rewrite the
/// dynamic occupancy set from scratch, run strictly before any agent logic
/// in the tick's ordering.
pub fn update_unit_grid(trespassable: &mut TrespassableCells, transformer: &TransformToGrid, agents: &Vec<Agent>)
    requires
        old(trespassable).wf(),
        transformer.wf(),
        forall|i: int| 0 <= i < agents@.len() ==> (#[trigger] agents@[i]).wf(),
    ensures
        final(trespassable).wf(),
        final(trespassable).cells == old(trespassable).cells,
        final(trespassable).ready == old(trespassable).ready,
        final(trespassable).units@.len() == agents@.len(),
        forall|i: int|
            0 <= i < agents@.len() ==> #[trigger] final(trespassable).units@[i]
                == transformer.spec_from_world(agents@[i].pos),
{
    let mut cells: Vec<Pos> = Vec::new();
    let n = agents.len();
    for k in 0..n
        invariant
            n == agents@.len(),
            cells@.len() == k,
            forall|i: int|
                0 <= i < k ==> #[trigger] cells@[i] == transformer.spec_from_world(agents@[i].pos),
            forall|i: int| 0 <= i < n ==> (#[trigger] agents@[i]).wf(),
            transformer.wf(),
    {
        cells.push(transformer.from_world(agents[k].pos));
    }
    trespassable.update_units(&cells);
}

} // verus!
