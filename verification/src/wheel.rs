//! Wheel sub-pixel accumulation.
//!
//! Scroll deltas arrive as fractional pixel amounts (in sub-pixel units of a
//! millionth of a pixel).  Each axis keeps a fractional remainder; incoming
//! deltas are added to it and the integral number of whole pixels is emitted,
//! so no rounding error ever accumulates across calls.

use vstd::prelude::*;

verus! {

/// One whole pixel, in sub-pixel units.
pub const SUBPIXEL_SCALE: i64 = 1_000_000;

/// Pixels per wheel "line" when the delta mode is line- or page-based.
pub const WHEEL_LINE_PIXELS: i64 = 17;

/// Largest single wheel delta accepted, in sub-pixel units.
pub const MAX_WHEEL_DELTA: i64 = 1_000_000_000_000;

/// Division that rounds toward zero, as the executable `/` on signed integers.
pub open spec fn div_toward_zero(a: int, b: int) -> int {
    if a >= 0 {
        a / b
    } else {
        -((-a) / b)
    }
}

/// A wheel delta converted to sub-pixels: pixel mode passes through, any
/// line- or page-based mode counts a fixed number of pixels per line.
pub open spec fn wheel_scaled(delta_mode: int, d: int) -> int {
    if delta_mode == 0 {
        d
    } else {
        WHEEL_LINE_PIXELS * d
    }
}

/// Per-axis fractional remainders, in sub-pixel units.
pub struct WheelAccumulator {
    pub rem_x: i64,
    pub rem_y: i64,
}

impl WheelAccumulator {
    /// Remainders always stay strictly below one whole pixel in magnitude.
    pub open spec fn wf(&self) -> bool {
        -SUBPIXEL_SCALE < self.rem_x < SUBPIXEL_SCALE && -SUBPIXEL_SCALE < self.rem_y
            < SUBPIXEL_SCALE
    }

    pub fn new() -> (r: Self)
        ensures
            r.wf(),
            r.rem_x == 0,
            r.rem_y == 0,
    {
        WheelAccumulator { rem_x: 0, rem_y: 0 }
    }

    /// Feed one scroll event; returns the whole pixels to emit on each axis.
    ///
    /// Conservation: emitted pixels plus the new remainder always equal the
    /// old remainder plus the scaled input, exactly.
    pub fn feed(&mut self, delta_mode: i32, dx: i64, dy: i64) -> (steps: (i64, i64))
        requires
            old(self).wf(),
            -MAX_WHEEL_DELTA <= dx <= MAX_WHEEL_DELTA,
            -MAX_WHEEL_DELTA <= dy <= MAX_WHEEL_DELTA,
        ensures
            final(self).wf(),
            steps.0 == div_toward_zero(
                old(self).rem_x + wheel_scaled(delta_mode as int, dx as int),
                SUBPIXEL_SCALE as int,
            ),
            steps.1 == div_toward_zero(
                old(self).rem_y + wheel_scaled(delta_mode as int, dy as int),
                SUBPIXEL_SCALE as int,
            ),
            steps.0 * SUBPIXEL_SCALE + final(self).rem_x == old(self).rem_x + wheel_scaled(
                delta_mode as int,
                dx as int,
            ),
            steps.1 * SUBPIXEL_SCALE + final(self).rem_y == old(self).rem_y + wheel_scaled(
                delta_mode as int,
                dy as int,
            ),
    {
        let (sx, rx) = accumulate_axis(self.rem_x, delta_mode, dx);
        let (sy, ry) = accumulate_axis(self.rem_y, delta_mode, dy);
        self.rem_x = rx;
        self.rem_y = ry;
        (sx, sy)
    }
}

/// Scaled sum of a run of `(delta_mode, delta)` inputs on one axis.
pub open spec fn sum_scaled(inputs: Seq<(int, int)>) -> int
    decreases inputs.len(),
{
    if inputs.len() == 0 {
        0
    } else {
        wheel_scaled(inputs[0].0, inputs[0].1) + sum_scaled(inputs.skip(1))
    }
}

/// Remainder after feeding a run of inputs to one axis.
pub open spec fn axis_rem(rem: int, inputs: Seq<(int, int)>) -> int
    decreases inputs.len(),
{
    if inputs.len() == 0 {
        rem
    } else {
        let total = rem + wheel_scaled(inputs[0].0, inputs[0].1);
        axis_rem(total - div_toward_zero(total, SUBPIXEL_SCALE as int) * SUBPIXEL_SCALE, inputs.skip(1))
    }
}

/// Whole pixels emitted over a run of inputs on one axis.
pub open spec fn axis_steps(rem: int, inputs: Seq<(int, int)>) -> int
    decreases inputs.len(),
{
    if inputs.len() == 0 {
        0
    } else {
        let total = rem + wheel_scaled(inputs[0].0, inputs[0].1);
        let q = div_toward_zero(total, SUBPIXEL_SCALE as int);
        q + axis_steps(total - q * SUBPIXEL_SCALE, inputs.skip(1))
    }
}

/// No systematic rounding drift over any run of scrolls: the pixels emitted
/// plus the final remainder always equal the initial remainder plus every
/// scaled input, exactly.
pub proof fn lemma_no_scroll_drift(rem: int, inputs: Seq<(int, int)>)
    ensures
        SUBPIXEL_SCALE * axis_steps(rem, inputs) + axis_rem(rem, inputs) == rem + sum_scaled(
            inputs,
        ),
    decreases inputs.len(),
{
    if inputs.len() > 0 {
        let total = rem + wheel_scaled(inputs[0].0, inputs[0].1);
        let q = div_toward_zero(total, SUBPIXEL_SCALE as int);
        lemma_no_scroll_drift(total - q * SUBPIXEL_SCALE, inputs.skip(1));
    }
}

/// Advance one axis: add the scaled delta to the remainder and split off the
/// whole-pixel part, rounding toward zero.
fn accumulate_axis(rem: i64, delta_mode: i32, d: i64) -> (r: (i64, i64))
    requires
        -SUBPIXEL_SCALE < rem < SUBPIXEL_SCALE,
        -MAX_WHEEL_DELTA <= d <= MAX_WHEEL_DELTA,
    ensures
        r.0 == div_toward_zero(rem + wheel_scaled(delta_mode as int, d as int), SUBPIXEL_SCALE as int),
        r.0 * SUBPIXEL_SCALE + r.1 == rem + wheel_scaled(delta_mode as int, d as int),
        -SUBPIXEL_SCALE < r.1 < SUBPIXEL_SCALE,
{
    let scaled: i64 = if delta_mode == 0 {
        d
    } else {
        WHEEL_LINE_PIXELS * d
    };
    let total: i64 = rem + scaled;
    let steps: i64 = if total >= 0 {
        total / SUBPIXEL_SCALE
    } else {
        -((-total) / SUBPIXEL_SCALE)
    };
    let new_rem: i64 = total - steps * SUBPIXEL_SCALE;
    (steps, new_rem)
}

} // verus!
