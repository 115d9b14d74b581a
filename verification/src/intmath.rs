//! Exact integer arithmetic used by the rasterizers: floor division and
//! truncating division of signed values by a positive divisor, and
//! nearest-integer rounding of a rational.

use vstd::prelude::*;
use vstd::arithmetic::div_mod::{
    lemma_div_is_ordered, lemma_div_minus_one, lemma_div_plus_one,
    lemma_fundamental_div_mod_converse_div,
};

verus! {

/// Rounds the rational `n / d` (for `d > 0`) to the nearest integer, with
/// ties toward positive infinity: `floor(n/d + 1/2)`.
pub open spec fn round_div(n: int, d: int) -> int
    recommends
        d > 0,
{
    (2 * n + d) / (2 * d)
}

/// Truncates the rational `n / d` (for `d > 0`) toward zero.
pub open spec fn trunc_div(n: int, d: int) -> int
    recommends
        d > 0,
{
    if n >= 0 {
        n / d
    } else {
        -((-n) / d)
    }
}

/// Floor division of a signed value by a positive divisor.
pub fn div_floor_i128(n: i128, d: i128) -> (q: i128)
    requires
        d > 0,
        n > i128::MIN,
    ensures
        q == n as int / d as int,
{
    if n >= 0 {
        let q = (n as u128) / (d as u128);
        q as i128
    } else {
        let m = (-n) as u128;
        let du = d as u128;
        // ceil(m / du) for m >= 1, so that -ceil(m/d) == floor(n/d)
        let q = (m - 1) / du + 1;
        proof {
            lemma_div_floor_neg(m as int, d as int);
            assert(q <= m) by {
                lemma_ceil_le(m as int, d as int);
            }
        }
        -(q as i128)
    }
}

/// Truncating division of a signed value by a positive divisor.
pub fn div_trunc_i64(n: i64, d: i64) -> (q: i64)
    requires
        d > 0,
        n > i64::MIN,
    ensures
        q == trunc_div(n as int, d as int),
{
    if n >= 0 {
        let q = (n as u64) / (d as u64);
        proof {
            assert(n as int / d as int <= n as int) by {
                vstd::arithmetic::div_mod::lemma_div_nonincreasing(n as int, d as int);
            }
            assert(n as int / d as int >= 0) by {
                vstd::arithmetic::div_mod::lemma_div_pos_is_pos(n as int, d as int);
            }
        }
        q as i64
    } else {
        let m = (-n) as u64;
        let q = m / (d as u64);
        proof {
            assert(m as int / d as int <= m as int) by {
                vstd::arithmetic::div_mod::lemma_div_nonincreasing(m as int, d as int);
            }
            assert(m as int / d as int >= 0) by {
                vstd::arithmetic::div_mod::lemma_div_pos_is_pos(m as int, d as int);
            }
        }
        -(q as i64)
    }
}

/// For `m >= 1` and `d > 0`, `ceil(m/d) == (m-1)/d + 1` and it equals
/// `-floor(-m/d)`.
proof fn lemma_div_floor_neg(m: int, d: int)
    requires
        m >= 1,
        d > 0,
    ensures
        (-m) / d == -((m - 1) / d + 1),
{
    let q = (m - 1) / d;
    let r = (m - 1) % d;
    vstd::arithmetic::div_mod::lemma_fundamental_div_mod(m - 1, d);
    // m - 1 == q * d + r, 0 <= r < d
    // -m == (-q - 1) * d + (d - 1 - r), with 0 <= d - 1 - r < d
    assert(-m == (-q - 1) * d + (d - 1 - r)) by (nonlinear_arith)
        requires
            m - 1 == d * q + r,
    ;
    lemma_fundamental_div_mod_converse_div(-m, d, -q - 1, d - 1 - r);
}

/// For `m >= 1` and `d > 0`, `(m-1)/d + 1 <= m`.
proof fn lemma_ceil_le(m: int, d: int)
    requires
        m >= 1,
        d > 0,
    ensures
        (m - 1) / d + 1 <= m,
{
    assert((m - 1) / d <= m - 1) by {
        vstd::arithmetic::div_mod::lemma_div_nonincreasing(m - 1, d);
    }
    assert((m - 1) / d >= 0) by {
        vstd::arithmetic::div_mod::lemma_div_pos_is_pos(m - 1, d);
    }
}

/// A truncated quotient of a value bounded by `b * d` is bounded by `b`.
pub proof fn lemma_trunc_div_bound(n: int, d: int, b: int)
    requires
        d > 0,
        0 <= b,
        -(b * d) <= n <= b * d,
    ensures
        -b <= trunc_div(n, d) <= b,
{
    vstd::arithmetic::div_mod::lemma_div_multiples_vanish(b, d);
    if n >= 0 {
        lemma_div_is_ordered(n, b * d, d);
        vstd::arithmetic::div_mod::lemma_div_pos_is_pos(n, d);
    } else {
        lemma_div_is_ordered(-n, b * d, d);
        vstd::arithmetic::div_mod::lemma_div_pos_is_pos(-n, d);
    }
}

/// `round_div` is monotone in the numerator.
pub proof fn lemma_round_div_ordered(n1: int, n2: int, d: int)
    requires
        d > 0,
        n1 <= n2,
    ensures
        round_div(n1, d) <= round_div(n2, d),
{
    lemma_div_is_ordered(2 * n1 + d, 2 * n2 + d, 2 * d);
}

/// Rounding an exact multiple gives the multiplier back: `round_div(k*d, d) == k`.
pub proof fn lemma_round_div_exact(k: int, d: int)
    requires
        d > 0,
    ensures
        round_div(k * d, d) == k,
{
    assert(2 * (k * d) + d == k * (2 * d) + d) by (nonlinear_arith);
    lemma_fundamental_div_mod_converse_div(2 * (k * d) + d, 2 * d, k, d);
}

/// The rounded interpolation offset `round_div(delta * i, s)` stays between
/// `0` and `delta` for `0 <= i <= s`.
pub proof fn lemma_round_div_mul_bounds(delta: int, i: int, s: int)
    requires
        s >= 1,
        0 <= i <= s,
    ensures
        vstd::math::min(0, delta) <= round_div(delta * i, s),
        round_div(delta * i, s) <= vstd::math::max(0, delta),
{
    lemma_round_div_exact(0, s);
    lemma_round_div_exact(delta, s);
    if delta >= 0 {
        assert(0 <= delta * i && delta * i <= delta * s) by (nonlinear_arith)
            requires
                delta >= 0,
                0 <= i <= s,
        ;
        lemma_round_div_ordered(0, delta * i, s);
        lemma_round_div_ordered(delta * i, delta * s, s);
    } else {
        assert(delta * s <= delta * i && delta * i <= 0) by (nonlinear_arith)
            requires
                delta < 0,
                0 <= i <= s,
        ;
        lemma_round_div_ordered(delta * s, delta * i, s);
        lemma_round_div_ordered(delta * i, 0, s);
    }
}

/// Two numerators at most `d` apart round to values at most one apart.
pub proof fn lemma_round_div_step(n1: int, n2: int, d: int)
    requires
        d > 0,
        n1 - d <= n2 <= n1 + d,
    ensures
        round_div(n1, d) - 1 <= round_div(n2, d) <= round_div(n1, d) + 1,
{
    let a = 2 * n1 + d;
    lemma_div_is_ordered(2 * n2 + d, a + 2 * d, 2 * d);
    lemma_div_is_ordered(a - 2 * d, 2 * n2 + d, 2 * d);
    lemma_div_plus_one(a, 2 * d);
    lemma_div_minus_one(a, 2 * d);
}

} // verus!
