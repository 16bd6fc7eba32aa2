//! The movement integrator: a per-agent velocity accumulator that ramps
//! toward `direction * max_speed` by at most `acceleration * dt` per tick and
//! is then clamped to `max_speed`, so agents visibly accelerate and
//! decelerate instead of snapping.  All arithmetic is exact fixed-point.

use vstd::prelude::*;

verus! {

use crate::geom::WorldVec;
use crate::math::lemma_square_bound;
use crate::math::lemma_sqrt_floor_is;
use crate::math::scale_i64;
use crate::math::scale_trunc;
use crate::math::sqrt_floor;
use crate::math::isqrt_i64;
use vstd::arithmetic::div_mod::lemma_div_is_ordered;
use vstd::arithmetic::div_mod::lemma_div_multiples_vanish;
use vstd::arithmetic::div_mod::lemma_div_pos_is_pos;
use vstd::arithmetic::mul::lemma_mul_inequality;
use vstd::arithmetic::mul::lemma_mul_is_commutative;
use vstd::arithmetic::div_mod::lemma_fundamental_div_mod;

/// Largest speed (milli-pixels per second) the integrator accepts.
pub const SPEED_LIMIT: i64 = 1_000_000;

/// Largest per-tick velocity change (milli-pixels per second) it accepts.
pub const STEP_LIMIT: i64 = 1_000_000;

/// Largest magnitude of a direction-vector component it accepts.
pub const DIR_LIMIT: i64 = 1_073_741_824;

/// Scaling a magnitude no larger than the divisor keeps the result within
/// the numerator, preserving its sign.
pub proof fn lemma_scale_trunc_bound(a: int, num: int, den: int)
    requires
        0 < den,
        0 <= num,
        -den <= a <= den,
    ensures
        -num <= scale_trunc(a, num, den) <= num,
        a >= 0 ==> scale_trunc(a, num, den) >= 0,
        a <= 0 ==> scale_trunc(a, num, den) <= 0,
{
    if a >= 0 {
        lemma_mul_inequality(a, den, num);
        lemma_div_is_ordered(a * num, den * num, den);
        lemma_mul_is_commutative(den, num);
        lemma_div_multiples_vanish(num, den);
        lemma_div_pos_is_pos(a * num, den);
    } else {
        lemma_mul_inequality(-a, den, num);
        lemma_div_is_ordered((-a) * num, den * num, den);
        lemma_mul_is_commutative(den, num);
        lemma_div_multiples_vanish(num, den);
        lemma_div_pos_is_pos((-a) * num, den);
    }
}

/// One `move_towards` step: snap onto `target` when it is within `step`,
/// otherwise advance `step` units along the straight line toward it
/// (magnitudes rounded toward zero).
pub open spec fn spec_move_towards(current: WorldVec, target: WorldVec, step: int) -> WorldVec {
    let d2 = current.spec_dist2(target);
    if d2 <= step * step {
        target
    } else {
        let s = sqrt_floor(d2);
        WorldVec {
            x: (current.x + scale_trunc(target.x - current.x, step, s)) as i64,
            y: (current.y + scale_trunc(target.y - current.y, step, s)) as i64,
        }
    }
}

/// Clamp `v` to length `max`: kept as is when already within it, otherwise
/// scaled down through the ceiling of its length (so the result never
/// exceeds `max`).
pub open spec fn spec_clamp_speed(v: WorldVec, max: int) -> WorldVec {
    let l2 = v.spec_len2();
    if l2 <= max * max {
        v
    } else {
        let s = sqrt_ceil(l2);
        WorldVec {
            x: scale_trunc(v.x as int, max, s) as i64,
            y: scale_trunc(v.y as int, max, s) as i64,
        }
    }
}

/// The ceiling of the square root of `n`.
pub open spec fn sqrt_ceil(n: int) -> int {
    let s = sqrt_floor(n);
    if s * s == n {
        s
    } else {
        s + 1
    }
}

/// The desired velocity for a movement direction: `direction` rescaled to
/// length `max` (zero stays zero; magnitudes rounded toward zero).
pub open spec fn spec_scale_to_length(d: WorldVec, len: int) -> WorldVec {
    if d.is_zero() {
        WorldVec { x: 0, y: 0 }
    } else {
        let s = sqrt_floor(d.spec_len2());
        WorldVec { x: scale_trunc(d.x as int, len, s) as i64, y: scale_trunc(d.y as int, len, s) as i64 }
    }
}

/// Rescale a non-zero direction vector to length `len` (rounded toward
/// zero); the zero vector stays zero.
pub fn scale_to_length(d: WorldVec, len: i64) -> (r: WorldVec)
    requires
        -DIR_LIMIT <= d.x <= DIR_LIMIT,
        -DIR_LIMIT <= d.y <= DIR_LIMIT,
        0 <= len <= SPEED_LIMIT,
    ensures
        r == spec_scale_to_length(d, len as int),
        -len <= r.x <= len,
        -len <= r.y <= len,
{
    if d.x == 0 && d.y == 0 {
        return WorldVec { x: 0, y: 0 };
    }
    proof {
        lemma_square_bound(d.x as int, DIR_LIMIT as int);
        lemma_square_bound(d.y as int, DIR_LIMIT as int);
    }
    let l2: i64 = d.x * d.x + d.y * d.y;
    proof {
        if d.x != 0 {
            assert(d.x * d.x >= 1) by (nonlinear_arith)
                requires
                    d.x != 0,
            ;
        } else {
            assert(d.y * d.y >= 1) by (nonlinear_arith)
                requires
                    d.y != 0,
            ;
        }
    }
    let s = isqrt_i64(l2);
    proof {
        assert(s >= 1) by (nonlinear_arith)
            requires
                s * s <= l2 < (s + 1) * (s + 1),
                l2 >= 1,
                s >= 0,
        ;
        assert(d.x * (len as i64) <= DIR_LIMIT * SPEED_LIMIT && (-d.x) * (len as i64) <= DIR_LIMIT
            * SPEED_LIMIT) by (nonlinear_arith)
            requires
                -DIR_LIMIT <= d.x <= DIR_LIMIT,
                0 <= len <= SPEED_LIMIT,
        ;
        assert(d.y * (len as i64) <= DIR_LIMIT * SPEED_LIMIT && (-d.y) * (len as i64) <= DIR_LIMIT
            * SPEED_LIMIT) by (nonlinear_arith)
            requires
                -DIR_LIMIT <= d.y <= DIR_LIMIT,
                0 <= len <= SPEED_LIMIT,
        ;
        assert(-s <= d.x <= s && -s <= d.y <= s) by (nonlinear_arith)
            requires
                s * s <= d.x * d.x + d.y * d.y < (s + 1) * (s + 1),
                0 <= s,
                0 <= d.x * d.x,
                0 <= d.y * d.y,
        ;
        lemma_scale_trunc_bound(d.x as int, len as int, s as int);
        lemma_scale_trunc_bound(d.y as int, len as int, s as int);
    }
    let rx = scale_i64(d.x, len as u64, s as u64);
    let ry = scale_i64(d.y, len as u64, s as u64);
    WorldVec { x: rx, y: ry }
}

/// One full integrator tick on a velocity: ramp toward `dir` rescaled to
/// `max`, by at most `step`, then clamp to `max`.
pub open spec fn spec_advance(v: WorldVec, dir: WorldVec, max: int, step: int) -> WorldVec {
    spec_clamp_speed(spec_move_towards(v, spec_scale_to_length(dir, max), step), max)
}

/// `n` integrator ticks from `v` with a constant direction and step.
pub open spec fn spec_advance_n(v: WorldVec, dir: WorldVec, max: int, step: int, n: nat) -> WorldVec
    decreases n,
{
    if n == 0 {
        v
    } else {
        spec_advance(spec_advance_n(v, dir, max, step, (n - 1) as nat), dir, max, step)
    }
}

/// The smoothed velocity accumulator of one agent, exclusively owned and
/// mutated by the movement integrator.
pub struct NpcVelAccum {
    pub v: WorldVec,
}

impl NpcVelAccum {
    pub open spec fn in_speed_range(self) -> bool {
        -SPEED_LIMIT <= self.v.x <= SPEED_LIMIT && -SPEED_LIMIT <= self.v.y <= SPEED_LIMIT
    }

    pub fn zero() -> (r: NpcVelAccum)
        ensures
            r.v == (WorldVec { x: 0, y: 0 }),
            r.in_speed_range(),
    {
        NpcVelAccum { v: WorldVec { x: 0, y: 0 } }
    }

    /// Advance the accumulator toward `target` by at most `step`.
    pub fn move_towards(&mut self, target: WorldVec, step: i64)
        requires
            old(self).in_speed_range(),
            -SPEED_LIMIT <= target.x <= SPEED_LIMIT,
            -SPEED_LIMIT <= target.y <= SPEED_LIMIT,
            0 <= step <= STEP_LIMIT,
        ensures
            final(self).v == spec_move_towards(old(self).v, target, step as int),
            -2 * SPEED_LIMIT <= final(self).v.x <= 2 * SPEED_LIMIT,
            -2 * SPEED_LIMIT <= final(self).v.y <= 2 * SPEED_LIMIT,
    {
        let dx: i64 = target.x - self.v.x;
        let dy: i64 = target.y - self.v.y;
        proof {
            lemma_square_bound(dx as int, 2 * SPEED_LIMIT as int);
            lemma_square_bound(dy as int, 2 * SPEED_LIMIT as int);
            lemma_square_bound(step as int, STEP_LIMIT as int);
        }
        let d2: i64 = dx * dx + dy * dy;
        proof {
            assert(d2 == self.v.spec_dist2(target)) by (nonlinear_arith)
                requires
                    d2 == dx * dx + dy * dy,
                    dx == target.x - self.v.x,
                    dy == target.y - self.v.y,
            ;
        }
        if d2 <= step * step {
            self.v = target;
        } else {
            proof {
                assert(d2 >= 1);
            }
            let s = isqrt_i64(d2);
            proof {
                assert(s >= step) by (nonlinear_arith)
                    requires
                        step * step < d2,
                        s * s <= d2 < (s + 1) * (s + 1),
                        0 <= s,
                        0 <= step,
                ;
                assert(-s <= dx <= s && -s <= dy <= s) by (nonlinear_arith)
                    requires
                        s * s <= dx * dx + dy * dy < (s + 1) * (s + 1),
                        0 <= s,
                        0 <= dx * dx,
                        0 <= dy * dy,
                ;
                lemma_scale_trunc_bound(dx as int, step as int, s as int);
                lemma_scale_trunc_bound(dy as int, step as int, s as int);
                assert(dx * step <= 0x4000_0000_0000 && (-dx) * step <= 0x4000_0000_0000 && dy
                    * step <= 0x4000_0000_0000 && (-dy) * step <= 0x4000_0000_0000)
                    by (nonlinear_arith)
                    requires
                        -2 * SPEED_LIMIT <= dx <= 2 * SPEED_LIMIT,
                        -2 * SPEED_LIMIT <= dy <= 2 * SPEED_LIMIT,
                        0 <= step <= STEP_LIMIT,
                ;
            }
            let mx = scale_i64(dx, step as u64, s as u64);
            let my = scale_i64(dy, step as u64, s as u64);
            self.v = WorldVec { x: self.v.x + mx, y: self.v.y + my };
        }
    }

    /// Clamp the accumulator's magnitude to `max`.
    pub fn clamp_speed(&mut self, max: i64)
        requires
            -2 * SPEED_LIMIT <= old(self).v.x <= 2 * SPEED_LIMIT,
            -2 * SPEED_LIMIT <= old(self).v.y <= 2 * SPEED_LIMIT,
            0 < max <= SPEED_LIMIT,
        ensures
            final(self).v == spec_clamp_speed(old(self).v, max as int),
            final(self).v.spec_len2() <= max * max,
            final(self).in_speed_range(),
    {
        let vx: i64 = self.v.x;
        let vy: i64 = self.v.y;
        proof {
            assert(0 <= vx * vx <= 16_000_000_000_000 && 0 <= vy * vy <= 16_000_000_000_000 && 0
                <= max * max <= 16_000_000_000_000) by (nonlinear_arith)
                requires
                    -2_000_000 <= vx <= 2_000_000,
                    -2_000_000 <= vy <= 2_000_000,
                    0 <= max <= 1_000_000,
            ;
        }
        let l2: i64 = vx * vx + vy * vy;
        if l2 <= max * max {
            proof {
                assert(vx * vx <= l2 && vy * vy <= l2) by (nonlinear_arith)
                    requires
                        l2 == vx * vx + vy * vy,
                        0 <= vx * vx,
                        0 <= vy * vy,
                ;
                assert(-max <= vx <= max && -max <= vy <= max) by (nonlinear_arith)
                    requires
                        vx * vx <= max * max,
                        vy * vy <= max * max,
                        0 < max,
                ;
            }
            return ;
        }
        let sf = isqrt_i64(l2);
        let s: i64 = if sf * sf == l2 {
            sf
        } else {
            sf + 1
        };
        proof {
            assert(s * s >= l2) by (nonlinear_arith)
                requires
                    sf * sf <= l2 < (sf + 1) * (sf + 1),
                    (s == sf && sf * sf == l2) || (s == sf + 1),
            ;
            assert(s >= 1) by (nonlinear_arith)
                requires
                    sf * sf <= l2 < (sf + 1) * (sf + 1),
                    0 <= sf,
                    s == sf || s == sf + 1,
                    s * s >= l2,
                    l2 > max * max,
                    1 <= max,
            ;
            assert(-s <= vx <= s && -s <= vy <= s) by (nonlinear_arith)
                requires
                    l2 == vx * vx + vy * vy,
                    l2 <= s * s,
                    0 <= s,
                    0 <= vx * vx,
                    0 <= vy * vy,
            ;
            lemma_scale_trunc_bound(vx as int, max as int, s as int);
            lemma_scale_trunc_bound(vy as int, max as int, s as int);
            assert(vx * max <= 0x4000_0000_0000 && (-vx) * max <= 0x4000_0000_0000 && vy * max
                <= 0x4000_0000_0000 && (-vy) * max <= 0x4000_0000_0000) by (nonlinear_arith)
                requires
                    -2 * SPEED_LIMIT <= vx <= 2 * SPEED_LIMIT,
                    -2 * SPEED_LIMIT <= vy <= 2 * SPEED_LIMIT,
                    0 < max <= SPEED_LIMIT,
            ;
        }
        let rx = scale_i64(vx, max as u64, s as u64);
        let ry = scale_i64(vy, max as u64, s as u64);
        proof {
            lemma_clamp_len2_bound(vx as int, vy as int, l2 as int, s as int, max as int);
        }
        self.v = WorldVec { x: rx, y: ry };
    }

    /// One integrator tick: ramp toward `direction` rescaled to `max_speed`
    /// by at most `accel * dt`, then clamp the magnitude to `max_speed`.
    /// The resulting vector is what the external mover applies verbatim.
    pub fn advance(&mut self, direction: WorldVec, max_speed: i64, accel: i64, dt_ms: u32)
        requires
            old(self).in_speed_range(),
            -DIR_LIMIT <= direction.x <= DIR_LIMIT,
            -DIR_LIMIT <= direction.y <= DIR_LIMIT,
            0 < max_speed <= SPEED_LIMIT,
            0 <= accel <= SPEED_LIMIT,
            dt_ms <= 1000,
        ensures
            final(self).v == spec_advance(
                old(self).v,
                direction,
                max_speed as int,
                accel * dt_ms / 1000,
            ),
            final(self).v.spec_len2() <= max_speed * max_speed,
            final(self).in_speed_range(),
    {
        proof {
            assert(0 <= accel * (dt_ms as i64) <= SPEED_LIMIT * 1000) by (nonlinear_arith)
                requires
                    0 <= accel <= SPEED_LIMIT,
                    0 <= dt_ms <= 1000,
            ;
        }
        let step: i64 = accel * (dt_ms as i64) / 1000;
        proof {
            assert(step == accel * dt_ms / 1000);
            assert(0 <= step <= STEP_LIMIT) by {
                lemma_div_pos_is_pos(accel * (dt_ms as i64), 1000);
                lemma_div_is_ordered(accel * (dt_ms as i64), SPEED_LIMIT * 1000, 1000);
            }
        }
        let target = scale_to_length(direction, max_speed);
        self.move_towards(target, step);
        self.clamp_speed(max_speed);
    }
}

/// For a non-negative magnitude, the square of the scaled-down quotient is
/// dominated by the square of the exact product.
proof fn lemma_scale_sq_bound(a: int, max: int, s: int)
    requires
        0 <= a,
        0 < max,
        0 < s,
    ensures
        s * s * (((a * max) / s) * ((a * max) / s)) <= (a * max) * (a * max),
{
    let q = (a * max) / s;
    assert(0 <= a * max) by (nonlinear_arith)
        requires
            0 <= a,
            0 < max,
    ;
    lemma_div_pos_is_pos(a * max, s);
    lemma_fundamental_div_mod(a * max, s);
    assert(s * q <= a * max);
    assert(s * s * (q * q) <= (a * max) * (a * max)) by (nonlinear_arith)
        requires
            s * q <= a * max,
            0 <= q,
            0 < s,
    ;
}

/// Scaling both components of a vector no longer than `s` down by `max / s`
/// leaves a vector no longer than `max`.
proof fn lemma_clamp_len2_bound(vx: int, vy: int, l2: int, s: int, max: int)
    requires
        l2 == vx * vx + vy * vy,
        l2 <= s * s,
        0 < s,
        0 < max,
    ensures
        scale_trunc(vx, max, s) * scale_trunc(vx, max, s) + scale_trunc(vy, max, s) * scale_trunc(
            vy,
            max,
            s,
        ) <= max * max,
{
    let ax = if vx >= 0 { vx } else { -vx };
    let ay = if vy >= 0 { vy } else { -vy };
    let qx = scale_trunc(vx, max, s);
    let qy = scale_trunc(vy, max, s);
    let px = (ax * max) / s;
    let py = (ay * max) / s;
    assert(qx == px || qx == -px);
    assert(qy == py || qy == -py);
    assert(qx * qx == px * px) by (nonlinear_arith)
        requires
            qx == px || qx == -px,
    ;
    assert(qy * qy == py * py) by (nonlinear_arith)
        requires
            qy == py || qy == -py,
    ;
    lemma_scale_sq_bound(ax, max, s);
    lemma_scale_sq_bound(ay, max, s);
    assert((ax * max) * (ax * max) + (ay * max) * (ay * max) == l2 * (max * max))
        by (nonlinear_arith)
        requires
            l2 == vx * vx + vy * vy,
            ax == vx || ax == -vx,
            ay == vy || ay == -vy,
    ;
    assert(l2 * (max * max) <= (s * s) * (max * max)) by (nonlinear_arith)
        requires
            l2 <= s * s,
            0 <= max * max,
    ;
    assert(px * px + py * py <= max * max) by (nonlinear_arith)
        requires
            s * s * (px * px) <= (ax * max) * (ax * max),
            s * s * (py * py) <= (ay * max) * (ay * max),
            (ax * max) * (ax * max) + (ay * max) * (ay * max) <= (s * s) * (max * max),
            0 < s,
    ;
}

/// One tick along the positive x axis is an exact one-dimensional ramp:
/// the speed grows by exactly `step` until it snaps onto `max`.
pub proof fn lemma_axis_tick(vx: int, d: int, max: int, step: int)
    requires
        0 <= vx <= max,
        0 < d <= DIR_LIMIT,
        0 < max <= SPEED_LIMIT,
        0 <= step <= STEP_LIMIT,
    ensures
        spec_advance((WorldVec { x: vx as i64, y: 0 }), (WorldVec { x: d as i64, y: 0 }), max, step)
            == (WorldVec {
            x: (if vx + step >= max {
                max
            } else {
                vx + step
            }) as i64,
            y: 0,
        }),
{
    let v = WorldVec { x: vx as i64, y: 0 };
    let dir = WorldVec { x: d as i64, y: 0 };
    assert(d * d <= d * d < (d + 1) * (d + 1)) by (nonlinear_arith)
        requires
            0 < d,
    ;
    lemma_sqrt_floor_is(d * d, d);
    assert(dir.spec_len2() == d * d) by (nonlinear_arith)
        requires
            dir.x == d,
            dir.y == 0,
    ;
    lemma_mul_is_commutative(d, max);
    lemma_div_multiples_vanish(max, d);
    assert(scale_trunc(d, max, d) == max);
    vstd::arithmetic::div_mod::lemma_div_of0(d);
    assert(scale_trunc(0, max, d) == 0);
    let target = spec_scale_to_length(dir, max);
    assert(target == (WorldVec { x: max as i64, y: 0 }));
    let gap = max - vx;
    assert(v.spec_dist2(target) == gap * gap) by (nonlinear_arith)
        requires
            v.x == vx,
            v.y == 0,
            target.x == max,
            target.y == 0,
            gap == max - vx,
    ;
    let m = spec_move_towards(v, target, step);
    if gap <= step {
        assert(gap * gap <= step * step) by (nonlinear_arith)
            requires
                0 <= gap <= step,
        ;
        assert(m == target);
        assert(m.spec_len2() == max * max) by (nonlinear_arith)
            requires
                m.x == max,
                m.y == 0,
        ;
        assert(spec_clamp_speed(m, max) == m);
    } else {
        assert(step * step < gap * gap) by (nonlinear_arith)
            requires
                0 <= step < gap,
        ;
        assert(gap * gap < (gap + 1) * (gap + 1)) by (nonlinear_arith)
            requires
                0 < gap,
        ;
        lemma_sqrt_floor_is(gap * gap, gap);
        lemma_mul_is_commutative(gap, step);
        lemma_div_multiples_vanish(step, gap);
        assert(scale_trunc(gap, step, gap) == step);
        vstd::arithmetic::div_mod::lemma_div_of0(gap);
        assert(scale_trunc(0, step, gap) == 0);
        assert(m == (WorldVec { x: (vx + step) as i64, y: 0 }));
        assert(m.spec_len2() <= max * max) by (nonlinear_arith)
            requires
                m.x == vx + step,
                m.y == 0,
                0 <= vx + step <= max,
        ;
        assert(spec_clamp_speed(m, max) == m);
    }
}

/// Starting from rest with a fixed axis-aligned direction, after `n` ticks
/// the speed is exactly `min(n * step, max)`: the ramp is linear in time and
/// clamps exactly at `max`, never exceeding it.
pub proof fn lemma_axis_ramp(d: int, max: int, step: int, n: nat)
    requires
        0 < d <= DIR_LIMIT,
        0 < max <= SPEED_LIMIT,
        0 <= step <= STEP_LIMIT,
    ensures
        spec_advance_n(
            (WorldVec { x: 0, y: 0 }),
            (WorldVec { x: d as i64, y: 0 }),
            max,
            step,
            n,
        ) == (WorldVec {
            x: (if n * step >= max {
                max
            } else {
                n * step
            }) as i64,
            y: 0,
        }),
    decreases n,
{
    let zero = WorldVec { x: 0, y: 0 };
    let dir = WorldVec { x: d as i64, y: 0 };
    if n == 0 {
        assert(n * step == 0) by (nonlinear_arith)
            requires
                n == 0,
        ;
    } else {
        lemma_axis_ramp(d, max, step, (n - 1) as nat);
        let prev = if (n - 1) * step >= max {
            max
        } else {
            (n - 1) * step
        };
        assert(0 <= prev <= max) by (nonlinear_arith)
            requires
                0 <= step,
                1 <= n,
                0 < max,
                prev == (if (n - 1) * step >= max {
                    max
                } else {
                    (n - 1) * step
                }),
        ;
        assert(prev <= STEP_LIMIT * n);
        lemma_axis_tick(prev, d, max, step);
        assert((n - 1) * step + step == n * step) by (nonlinear_arith);
        assert((if prev + step >= max {
            max
        } else {
            prev + step
        }) == (if n * step >= max {
            max
        } else {
            n * step
        })) by (nonlinear_arith)
            requires
                prev == (if (n - 1) * step >= max {
                    max
                } else {
                    (n - 1) * step
                }),
                (n - 1) * step + step == n * step,
                0 <= step,
                1 <= n,
                0 < max,
        ;
    }
}

/// From rest, once `n * step` has reached `max`, the speed equals `max`
/// exactly (the clamped ramp neither undershoots nor exceeds it).
pub proof fn lemma_ramp_reaches_max(d: int, max: int, step: int, n: nat)
    requires
        0 < d <= DIR_LIMIT,
        0 < max <= SPEED_LIMIT,
        0 <= step <= STEP_LIMIT,
        n * step >= max,
    ensures
        spec_advance_n(
            (WorldVec { x: 0, y: 0 }),
            (WorldVec { x: d as i64, y: 0 }),
            max,
            step,
            n,
        ) == (WorldVec { x: max as i64, y: 0 }),
{
    lemma_axis_ramp(d, max, step, n);
}

} // verus!
