//! Combat helpers: the closed-form ballistic intercept used by the hunter's
//! ranged throw, and the collision outcomes that drive damage and death.

use vstd::prelude::*;

verus! {

use crate::agent::NpcState;
use crate::geom::WorldVec;
use crate::math::isqrt_u128;
use crate::math::scale_trunc;
use crate::math::sqrt_floor;
use crate::motion::SPEED_LIMIT;

/// Damage dealt by one projectile hit or one melee strike.
pub const HIT_DAMAGE: u32 = 10;

/// Largest magnitude of an intercept-point coordinate the result type can
/// hold; a solution beyond it cannot be represented and is reported as "no
/// shot".
pub const INTERCEPT_LIMIT: i64 = 9_223_372_036_854_775_807;

/// Quadratic coefficient `a` of the intercept equation: the squared target
/// speed minus the squared projectile speed.
pub open spec fn icpt_a(tv: WorldVec, pv: int) -> int {
    tv.x * tv.x + tv.y * tv.y - pv * pv
}

/// Quadratic coefficient `b`: twice the dot product of the shooter-to-target
/// offset with the target velocity.
pub open spec fn icpt_b(sp: WorldVec, tp: WorldVec, tv: WorldVec) -> int {
    2 * ((tp.x - sp.x) * tv.x + (tp.y - sp.y) * tv.y)
}

/// Quadratic coefficient `c`: the squared shooter-to-target distance.
pub open spec fn icpt_c(sp: WorldVec, tp: WorldVec) -> int {
    (tp.x - sp.x) * (tp.x - sp.x) + (tp.y - sp.y) * (tp.y - sp.y)
}

/// The discriminant of the intercept equation.
pub open spec fn icpt_dis(sp: WorldVec, tp: WorldVec, tv: WorldVec, pv: int) -> int {
    icpt_b(sp, tp, tv) * icpt_b(sp, tp, tv) - 4 * icpt_a(tv, pv) * icpt_c(sp, tp)
}

/// The time to intercept in milliseconds: the earlier root of the
/// quadratic, with the magnitude of the quotient rounded down.  Meaningful
/// whenever a solution exists; non-negative by construction when `icpt_a`
/// is negative.
pub open spec fn icpt_t_ms(sp: WorldVec, tp: WorldVec, tv: WorldVec, pv: int) -> int {
    let num = -icpt_b(sp, tp, tv) - sqrt_floor(icpt_dis(sp, tp, tv, pv));
    let den = 2 * icpt_a(tv, pv);
    if icpt_a(tv, pv) < 0 {
        1000 * (-num) / (-den)
    } else {
        1000 * num / den
    }
}

/// The intercept point: the target position extrapolated along its velocity
/// for the time to intercept (magnitudes rounded toward zero).
pub open spec fn icpt_point_x(sp: WorldVec, tp: WorldVec, tv: WorldVec, pv: int) -> int {
    tp.x + scale_trunc(tv.x as int, icpt_t_ms(sp, tp, tv, pv), 1000)
}

pub open spec fn icpt_point_y(sp: WorldVec, tp: WorldVec, tv: WorldVec, pv: int) -> int {
    tp.y + scale_trunc(tv.y as int, icpt_t_ms(sp, tp, tv, pv), 1000)
}

/// Whether the closed form has a forward-time solution: a non-degenerate
/// leading coefficient, a non-negative discriminant, and a non-negative
/// earlier root (automatic when the target is slower than the projectile).
pub open spec fn icpt_has_solution(sp: WorldVec, tp: WorldVec, tv: WorldVec, pv: int) -> bool {
    &&& icpt_a(tv, pv) != 0
    &&& icpt_dis(sp, tp, tv, pv) >= 0
    &&& (icpt_a(tv, pv) < 0 || -icpt_b(sp, tp, tv) - sqrt_floor(icpt_dis(sp, tp, tv, pv)) >= 0)
}

/// Whether a shot is taken: a forward-time solution whose intercept point
/// the result type can represent.
pub open spec fn icpt_shoots(sp: WorldVec, tp: WorldVec, tv: WorldVec, pv: int) -> bool {
    &&& icpt_has_solution(sp, tp, tv, pv)
    &&& -INTERCEPT_LIMIT <= icpt_point_x(sp, tp, tv, pv) <= INTERCEPT_LIMIT
    &&& -INTERCEPT_LIMIT <= icpt_point_y(sp, tp, tv, pv) <= INTERCEPT_LIMIT
}

/// Where a projectile of speed `proj_vel` launched now from `shooter_pos`
/// meets the linearly-extrapolated target, or `None` when no shot should be
/// taken this tick.
///
/// `None` is a normal outcome, not an error: it is returned exactly when the
/// discriminant is negative, when the earlier root is negative, when the
/// equation degenerates (`icpt_a == 0`, where the closed form divides by
/// zero), or when the solution lies outside what an `i64` coordinate can
/// hold.  When the target is slower than the projectile, the discriminant
/// and root are provably non-negative, so a stationary target is always
/// intercepted exactly at its current position.
pub fn calculate_intercept(shooter_pos: WorldVec, target_pos: WorldVec, target_vel: WorldVec, proj_vel: i64) -> (r: Option<WorldVec>)
    requires
        shooter_pos.in_world_range(),
        target_pos.in_world_range(),
        -SPEED_LIMIT <= target_vel.x <= SPEED_LIMIT,
        -SPEED_LIMIT <= target_vel.y <= SPEED_LIMIT,
        0 < proj_vel <= SPEED_LIMIT,
    ensures
        (r is Some) <==> icpt_shoots(shooter_pos, target_pos, target_vel, proj_vel as int),
        r matches Some(i) ==> i.x == icpt_point_x(shooter_pos, target_pos, target_vel, proj_vel as int)
            && i.y == icpt_point_y(shooter_pos, target_pos, target_vel, proj_vel as int),
        target_vel.x == 0 && target_vel.y == 0 ==> r == Some(target_pos),
{
    let tvx: i128 = target_vel.x as i128;
    let tvy: i128 = target_vel.y as i128;
    let pv: i128 = proj_vel as i128;
    let dx: i128 = target_pos.x as i128 - shooter_pos.x as i128;
    let dy: i128 = target_pos.y as i128 - shooter_pos.y as i128;
    proof {
        lemma_icpt_products_bounded(tvx as int, tvy as int, pv as int, dx as int, dy as int);
    }
    let a: i128 = tvx * tvx + tvy * tvy - pv * pv;
    if a == 0 {
        proof {
            if target_vel.x == 0 && target_vel.y == 0 {
                assert(a == -(pv * pv)) by (nonlinear_arith)
                    requires
                        a == tvx * tvx + tvy * tvy - pv * pv,
                        tvx == 0,
                        tvy == 0,
                ;
                assert(false);
            }
        }
        return None;
    }
    let b: i128 = 2 * (dx * tvx + dy * tvy);
    let c: i128 = dx * dx + dy * dy;
    proof {
        lemma_icpt_dis_bounded(a as int, b as int, c as int);
    }
    let dis: i128 = b * b - 4 * a * c;
    if dis < 0 {
        return None;
    }
    let sq128 = isqrt_u128(dis as u128);
    proof {
        assert(dis as u128 == dis);
        assert(sq128 * sq128 <= dis);
        assert(sq128 <= 200_000_000_000_000u128) by (nonlinear_arith)
            requires
                sq128 * sq128 <= 40_000_000_000_000_000_000_000_000_000,
                0 <= sq128,
        ;
    }
    let sq: i128 = sq128 as i128;
    let num_u: u128;
    let den_u: u128;
    if a < 0 {
        proof {
            assert(sq * sq <= dis < (sq + 1) * (sq + 1));
            assert(sq >= (if b >= 0 { b as int } else { -(b as int) })) by (nonlinear_arith)
                requires
                    sq * sq <= dis < (sq + 1) * (sq + 1),
                    dis >= b * b,
                    0 <= sq,
            ;
        }
        proof {
            assert(2 <= -2 * a <= 4_000_000_000_000) by (nonlinear_arith)
                requires
                    -2_000_000_000_000 <= a && a <= -1,
            ;
        }
        num_u = (b + sq) as u128;
        den_u = (-2 * a) as u128;
    } else {
        let num_i: i128 = -b - sq;
        if num_i < 0 {
            return None;
        }
        proof {
            assert(2 <= 2 * a <= 4_000_000_000_000) by (nonlinear_arith)
                requires
                    1 <= a && a <= 2_000_000_000_000,
            ;
        }
        num_u = num_i as u128;
        den_u = (2 * a) as u128;
    }
    proof {
        assert(2 <= den_u);
        assert(num_u <= 400_000_000_000_000u128);
    }
    let t_ms: u128 = (1000 * num_u) / den_u;
    proof {
        assert(t_ms == icpt_t_ms(shooter_pos, target_pos, target_vel, proj_vel as int));
        assert(t_ms <= 200_000_000_000_000_000) by (nonlinear_arith)
            requires
                t_ms == (1000 * (num_u as int)) / (den_u as int),
                num_u <= 400_000_000_000_000u128,
                2 <= den_u,
        ;
    }
    let avx: i64 = if target_vel.x >= 0 {
        target_vel.x
    } else {
        -target_vel.x
    };
    let avy: i64 = if target_vel.y >= 0 {
        target_vel.y
    } else {
        -target_vel.y
    };
    proof {
        assert((avx as u128) * t_ms <= 300_000_000_000_000_000_000_000 && (avy as u128) * t_ms
            <= 300_000_000_000_000_000_000_000) by (nonlinear_arith)
            requires
                0 <= avx <= 1_000_000,
                0 <= avy <= 1_000_000,
                0 <= t_ms <= 200_000_000_000_000_000,
        ;
    }
    let magx: u128 = (avx as u128) * t_ms / 1000;
    let magy: u128 = (avy as u128) * t_ms / 1000;
    proof {
        lemma_icpt_mag_bounded(target_vel.x as int, t_ms as int, magx as int);
        lemma_icpt_mag_bounded(target_vel.y as int, t_ms as int, magy as int);
    }
    let px: i128 = target_pos.x as i128 + (if target_vel.x >= 0 {
        magx as i128
    } else {
        -(magx as i128)
    });
    let py: i128 = target_pos.y as i128 + (if target_vel.y >= 0 {
        magy as i128
    } else {
        -(magy as i128)
    });
    proof {
        assert(px == icpt_point_x(shooter_pos, target_pos, target_vel, proj_vel as int));
        assert(py == icpt_point_y(shooter_pos, target_pos, target_vel, proj_vel as int));
        if target_vel.x == 0 && target_vel.y == 0 {
            assert(magx == 0 && magy == 0) by (nonlinear_arith)
                requires
                    magx == (0 * t_ms) / 1000,
                    magy == (0 * t_ms) / 1000,
                    0 <= t_ms,
            ;
        }
    }
    if px < -INTERCEPT_LIMIT as i128 || px > INTERCEPT_LIMIT as i128 || py < -INTERCEPT_LIMIT as i128
        || py > INTERCEPT_LIMIT as i128 {
        return None;
    }
    Some(WorldVec { x: px as i64, y: py as i64 })
}

/// The squares and cross products of bounded intercept inputs stay far
/// inside `i128`.
proof fn lemma_icpt_products_bounded(tvx: int, tvy: int, pv: int, dx: int, dy: int)
    requires
        -SPEED_LIMIT <= tvx <= SPEED_LIMIT,
        -SPEED_LIMIT <= tvy <= SPEED_LIMIT,
        0 < pv <= SPEED_LIMIT,
        -33_554_432 <= dx <= 33_554_432,
        -33_554_432 <= dy <= 33_554_432,
    ensures
        0 <= tvx * tvx <= 1_000_000_000_000,
        0 <= tvy * tvy <= 1_000_000_000_000,
        0 < pv * pv <= 1_000_000_000_000,
        -33_554_432_000_000 <= dx * tvx <= 33_554_432_000_000,
        -33_554_432_000_000 <= dy * tvy <= 33_554_432_000_000,
        0 <= dx * dx <= 1_125_899_906_842_624,
        0 <= dy * dy <= 1_125_899_906_842_624,
{
    assert(0 <= tvx * tvx <= 1_000_000_000_000 && 0 <= tvy * tvy <= 1_000_000_000_000 && 0 < pv
        * pv <= 1_000_000_000_000 && -33_554_432_000_000 <= dx * tvx <= 33_554_432_000_000
        && -33_554_432_000_000 <= dy * tvy <= 33_554_432_000_000 && 0 <= dx * dx
        <= 1_125_899_906_842_624 && 0 <= dy * dy <= 1_125_899_906_842_624) by (nonlinear_arith)
        requires
            -SPEED_LIMIT <= tvx <= SPEED_LIMIT,
            -SPEED_LIMIT <= tvy <= SPEED_LIMIT,
            0 < pv <= SPEED_LIMIT,
            -33_554_432 <= dx <= 33_554_432,
            -33_554_432 <= dy <= 33_554_432,
    ;
}

/// The discriminant terms of bounded coefficients stay far inside `i128`;
/// for a negative leading coefficient the discriminant dominates `b * b`.
proof fn lemma_icpt_dis_bounded(a: int, b: int, c: int)
    requires
        -1_000_000_000_000 <= a <= 2_000_000_000_000,
        -135_000_000_000_000 <= b <= 135_000_000_000_000,
        0 <= c <= 2_300_000_000_000_000,
    ensures
        0 <= b * b <= 20_000_000_000_000_000_000_000_000_000,
        -20_000_000_000_000_000_000_000_000_000 <= 4 * a * c
            <= 20_000_000_000_000_000_000_000_000_000,
        a < 0 ==> b * b <= b * b - 4 * a * c,
        b * b - 4 * a * c <= 40_000_000_000_000_000_000_000_000_000,
{
    assert(0 <= b * b <= 20_000_000_000_000_000_000_000_000_000
        && -20_000_000_000_000_000_000_000_000_000 <= 4 * a * c
        <= 20_000_000_000_000_000_000_000_000_000 && (a < 0 ==> b * b <= b * b - 4 * a * c) && b
        * b - 4 * a * c <= 40_000_000_000_000_000_000_000_000_000) by (nonlinear_arith)
        requires
            -1_000_000_000_000 <= a <= 2_000_000_000_000,
            -135_000_000_000_000 <= b <= 135_000_000_000_000,
            0 <= c <= 2_300_000_000_000_000,
    ;
}

/// A scaled displacement magnitude is non-negative and stays far inside
/// `i128`.
proof fn lemma_icpt_mag_bounded(tv: int, t_ms: int, mag: int)
    requires
        -SPEED_LIMIT <= tv <= SPEED_LIMIT,
        0 <= t_ms <= 200_000_000_000_000_000,
        mag == ((if tv >= 0 { tv } else { -tv }) * t_ms) / 1000,
    ensures
        0 <= mag <= 200_000_000_000_000_000_000_000,
{
    let av = if tv >= 0 { tv } else { -tv };
    assert(0 <= av * t_ms <= 200_000_000_000_000_000_000_000_000) by (nonlinear_arith)
        requires
            0 <= av <= SPEED_LIMIT,
            0 <= t_ms <= 200_000_000_000_000_000,
    ;
    assert(0 <= mag && 1000 * mag <= av * t_ms) by (nonlinear_arith)
        requires
            mag == (av * t_ms) / 1000,
            0 <= av * t_ms,
    ;
    assert(mag <= 200_000_000_000_000_000_000_000) by (nonlinear_arith)
        requires
            1000 * mag <= 200_000_000_000_000_000_000_000_000,
    ;
}

/// Outcome of the player's body colliding with a live NPC: at night the NPC
/// is prey and dies on contact; by day the NPC strikes back for fixed
/// damage.  The returned value is the damage the player takes.
pub fn collide_player_npc(state: &mut NpcState, is_night: bool) -> (damage: u32)
    ensures
        is_night ==> *final(state) == NpcState::Dead && damage == 0,
        !is_night ==> *final(state) == *old(state) && damage == HIT_DAMAGE,
{
    if is_night {
        *state = NpcState::Dead;
        0
    } else {
        HIT_DAMAGE
    }
}

} // verus!
