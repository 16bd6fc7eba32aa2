//! Exact integer helpers: floor square root, floor division and
//! sign-magnitude scaling.  Everything the engine-facing modules compute with
//! is built from these, so none of the fixed-point arithmetic can overflow or
//! round in an unspecified way.

use vstd::prelude::*;

verus! {

use vstd::arithmetic::div_mod::lemma_fundamental_div_mod;
use vstd::arithmetic::div_mod::lemma_fundamental_div_mod_converse;

/// A bounded quantity has a bounded square.
pub proof fn lemma_square_bound(x: int, l: int)
    requires
        -l <= x <= l,
    ensures
        0 <= x * x <= l * l,
{
    assert(0 <= x * x <= l * l) by (nonlinear_arith)
        requires
            -l <= x <= l,
    ;
}

/// The floor of the square root of `n`, as a mathematical function.
pub open spec fn sqrt_floor(n: int) -> int {
    choose|r: int| 0 <= r && #[trigger] (r * r) <= n && n < (r + 1) * (r + 1)
}

/// The floor square root is unique, so `sqrt_floor` picks exactly it.
pub proof fn lemma_sqrt_floor_is(n: int, r: int)
    requires
        0 <= r,
        r * r <= n,
        n < (r + 1) * (r + 1),
    ensures
        sqrt_floor(n) == r,
{
    let s = sqrt_floor(n);
    assert(0 <= s && s * s <= n && n < (s + 1) * (s + 1));
    assert(s == r) by (nonlinear_arith)
        requires
            0 <= r,
            0 <= s,
            r * r <= n,
            n < (r + 1) * (r + 1),
            s * s <= n,
            n < (s + 1) * (s + 1),
    ;
}

/// Floor square root, by binary search.
pub fn isqrt_u128(n: u128) -> (r: u128)
    requires
        n < 0x1_0000_0000_0000_0000_0000_0000_0000u128,
    ensures
        r * r <= n < (r + 1) * (r + 1),
        r == sqrt_floor(n as int),
{
    let mut lo: u128 = 0;
    let mut hi: u128 = 0x100_0000_0000_0000u128;
    assert(hi * hi == 0x1_0000_0000_0000_0000_0000_0000_0000int);
    while hi - lo > 1
        invariant
            lo < hi <= 0x100_0000_0000_0000u128,
            lo * lo <= n,
            n < hi * hi,
        decreases hi - lo,
    {
        let mid = lo + (hi - lo) / 2;
        proof {
            lemma_square_bound(mid as int, 0x100_0000_0000_0000);
        }
        if mid * mid <= n {
            lo = mid;
        } else {
            hi = mid;
        }
    }
    proof {
        lemma_sqrt_floor_is(n as int, lo as int);
    }
    lo
}

/// Floor square root of a non-negative `i64`, for velocity magnitudes.
pub fn isqrt_i64(n: i64) -> (r: i64)
    requires
        0 <= n,
    ensures
        r * r <= n < (r + 1) * (r + 1),
        r == sqrt_floor(n as int),
        0 <= r <= n,
{
    let r = isqrt_u128(n as u128);
    proof {
        assert(r * r <= n);
        assert(r <= n) by (nonlinear_arith)
            requires
                0 <= r,
                r * r <= n,
        ;
    }
    r as i64
}

/// Floor division of a (possibly negative) dividend by a positive divisor.
/// Agrees with the mathematical `/` of specifications.
pub fn floor_div_i64(a: i64, b: i64) -> (r: i64)
    requires
        0 < b,
        -0x4000_0000_0000_0000 < a < 0x4000_0000_0000_0000,
    ensures
        r == a as int / b as int,
{
    if a >= 0 {
        let q = (a as u64) / (b as u64);
        proof {
            assert(q <= a) by (nonlinear_arith)
                requires
                    0 <= a,
                    0 < b,
                    q == a as int / b as int,
            ;
        }
        q as i64
    } else {
        let na = (-a) as u64;
        let ub = b as u64;
        let q = (na + (ub - 1)) / ub;
        proof {
            let x = na as int + ub as int - 1;
            let d = b as int;
            lemma_fundamental_div_mod(x, d);
            let qq = x / d;
            let rr = x % d;
            assert((-qq) * d + (d - 1 - rr) == a as int) by (nonlinear_arith)
                requires
                    x == d * qq + rr,
                    x == na + d - 1,
                    a == -(na as int),
            ;
            assert(0 <= d - 1 - rr < d);
            lemma_fundamental_div_mod_converse(a as int, d, -qq, d - 1 - rr);
            assert(qq <= na) by (nonlinear_arith)
                requires
                    0 < d,
                    0 < na,
                    qq == (na as int + d - 1) / d,
            ;
        }
        -(q as i64)
    }
}

/// `sign(a) * ((|a| * num) / den)`: scale a signed quantity by a non-negative
/// ratio, rounding the magnitude down (toward zero).
pub open spec fn scale_trunc(a: int, num: int, den: int) -> int {
    if a >= 0 {
        (a * num) / den
    } else {
        -(((-a) * num) / den)
    }
}

/// Executable sign-magnitude scaling; exact counterpart of `scale_trunc`.
pub fn scale_i64(a: i64, num: u64, den: u64) -> (r: i64)
    requires
        0 < den,
        -0x4000_0000_0000_0000 < a < 0x4000_0000_0000_0000,
        (if a >= 0 { a as int } else { -(a as int) }) * num < 0x4000_0000_0000_0000,
    ensures
        r == scale_trunc(a as int, num as int, den as int),
{
    let mag: u64 = if a >= 0 {
        a as u64
    } else {
        (-a) as u64
    };
    let scaled = (mag * num) / den;
    proof {
        assert(0 <= scaled) by (nonlinear_arith)
            requires
                scaled == (mag * num) as int / den as int,
                0 < den,
        ;
    }
    if a >= 0 {
        scaled as i64
    } else {
        -(scaled as i64)
    }
}

} // verus!
