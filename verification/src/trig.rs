//! Fixed-point sine and cosine on whole degrees, by a rational
//! approximation. On `[0, 180]` degrees the sine is approximated by
//! `4d(180-d) / (40500 - d(180-d))`, a classical rational bound accurate to
//! a fraction of a percent; the rest of the turn follows by symmetry. All
//! values are scaled by `TRIG_SCALE` and computed exactly in integers.

use vstd::prelude::*;
use vstd::arithmetic::div_mod::{lemma_div_is_ordered, lemma_div_multiples_vanish, lemma_div_pos_is_pos};

verus! {

/// The fixed-point scale: results represent ten-thousandths.
pub const TRIG_SCALE: i64 = 10000;

/// Scaled sine of `d` degrees on `[0, 180]`.
pub open spec fn half_sine_scaled(d: int) -> int
    recommends
        0 <= d <= 180,
{
    (4 * (d * (180 - d)) * (TRIG_SCALE as int)) / (40500 - d * (180 - d))
}

/// Scaled sine of `d` degrees on `[0, 360]`.
pub open spec fn sine_scaled(d: int) -> int
    recommends
        0 <= d <= 360,
{
    if d <= 180 {
        half_sine_scaled(d)
    } else {
        -half_sine_scaled(d - 180)
    }
}

/// Scaled cosine of `d` degrees on `[0, 360]`, as the sine shifted by a
/// quarter turn.
pub open spec fn cosine_scaled(d: int) -> int
    recommends
        0 <= d <= 360,
{
    if d <= 270 {
        sine_scaled(d + 90)
    } else {
        sine_scaled(d - 270)
    }
}

/// On `[0, 180]` the scaled sine lies in `[0, TRIG_SCALE]`.
pub proof fn lemma_half_sine_range(d: int)
    requires
        0 <= d <= 180,
    ensures
        0 <= half_sine_scaled(d) <= TRIG_SCALE as int,
{
    let p = d * (180 - d);
    assert(0 <= p <= 8100) by (nonlinear_arith)
        requires
            0 <= d <= 180,
            p == d * (180 - d),
    ;
    let num = 4 * p * (TRIG_SCALE as int);
    let den = 40500 - p;
    lemma_div_pos_is_pos(num, den);
    assert(num <= (TRIG_SCALE as int) * den) by (nonlinear_arith)
        requires
            0 <= p <= 8100,
            num == 4 * p * (TRIG_SCALE as int),
            den == 40500 - p,
    ;
    lemma_div_is_ordered(num, (TRIG_SCALE as int) * den, den);
    lemma_div_multiples_vanish(TRIG_SCALE as int, den);
}

/// The scaled sine lies in `[-TRIG_SCALE, TRIG_SCALE]` on the whole turn.
pub proof fn lemma_sine_range(d: int)
    requires
        0 <= d <= 360,
    ensures
        -(TRIG_SCALE as int) <= sine_scaled(d) <= TRIG_SCALE as int,
{
    if d <= 180 {
        lemma_half_sine_range(d);
    } else {
        lemma_half_sine_range(d - 180);
    }
}

/// The scaled cosine lies in `[-TRIG_SCALE, TRIG_SCALE]` on the whole turn.
pub proof fn lemma_cosine_range(d: int)
    requires
        0 <= d <= 360,
    ensures
        -(TRIG_SCALE as int) <= cosine_scaled(d) <= TRIG_SCALE as int,
{
    if d <= 270 {
        lemma_sine_range(d + 90);
    } else {
        lemma_sine_range(d - 270);
    }
}

/// Scaled sine of `d` degrees on `[0, 180]`, computed exactly.
fn half_sine(d: u32) -> (r: i64)
    requires
        d <= 180,
    ensures
        r == half_sine_scaled(d as int),
        0 <= r <= TRIG_SCALE,
{
    proof {
        assert(0 <= (d as int) * (180 - d as int) <= 8100) by (nonlinear_arith)
            requires
                0 <= d as int <= 180,
        ;
        lemma_half_sine_range(d as int);
    }
    let p: u64 = (d as u64) * (180 - d as u64);
    let num: u64 = 4 * p * 10000;
    let den: u64 = 40500 - p;
    (num / den) as i64
}

/// Scaled sine of `d` degrees on `[0, 360]`, computed exactly.
pub fn sine(d: u32) -> (r: i64)
    requires
        d <= 360,
    ensures
        r == sine_scaled(d as int),
        -TRIG_SCALE <= r <= TRIG_SCALE,
{
    if d <= 180 {
        half_sine(d)
    } else {
        -half_sine(d - 180)
    }
}

/// Scaled cosine of `d` degrees on `[0, 360]`, computed exactly.
pub fn cosine(d: u32) -> (r: i64)
    requires
        d <= 360,
    ensures
        r == cosine_scaled(d as int),
        -TRIG_SCALE <= r <= TRIG_SCALE,
{
    if d <= 270 {
        sine(d + 90)
    } else {
        sine(d - 270)
    }
}

} // verus!
