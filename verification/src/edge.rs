//! Multi-monitor edge handling.
//!
//! While edge checking is armed (by a left-edge jump), each real sample's
//! clamped on-screen position is compared against the discovered window
//! geometry.  Crossing within a couple of pixels of the right edge reports
//! the vertical fraction upward — but only once the cursor has first moved
//! away from the left edge, so a jump does not immediately re-fire the event
//! it came from.

use vstd::prelude::*;

verus! {

/// How close to the right edge counts as a crossing, in pixels.
pub const RIGHT_EDGE_MARGIN: i32 = 2;

/// How far from the left edge counts as having left it, in pixels.
pub const CENTER_MARGIN: i32 = 35;

/// Horizontal distance from the right edge after a jump, in pixels.
pub const JUMP_MARGIN: i64 = 5;

/// Oversized relative probe moves used to discover the screen bounds.
pub const PROBE_SPAN_X: i32 = 7680 * 3;
pub const PROBE_SPAN_Y: i32 = 4320 * 3;

/// Screen bounds, lazily discovered by probing; unknown until then.
pub struct WindowGeometry {
    pub width: Option<i32>,
    pub height: Option<i32>,
}

impl WindowGeometry {
    pub fn new() -> (r: Self)
        ensures
            r.width is None,
            r.height is None,
    {
        WindowGeometry { width: None, height: None }
    }

    /// Record the discovered screen bounds.
    pub fn update_window_size(&mut self, x: i32, y: i32)
        ensures
            final(self).width == Some(x),
            final(self).height == Some(y),
    {
        self.width = Some(x);
        self.height = Some(y);
    }

    pub fn is_known(&self) -> (r: bool)
        ensures
            r == (self.width is Some && self.height is Some),
    {
        self.width.is_some() && self.height.is_some()
    }
}

/// Edge-checking state: whether it is armed, and whether the cursor has
/// cleared the left edge since the last jump.
pub struct EdgeTracker {
    pub check_sides: bool,
    pub left_cleared: bool,
}

/// A fraction in millionths clamped into the unit range.
pub open spec fn clamp_unit_micro(f: int) -> int {
    if f < 0 {
        0
    } else if f > 1_000_000 {
        1_000_000
    } else {
        f
    }
}

/// Vertical position as a clamped fraction of the screen height, in
/// millionths.
pub open spec fn spec_height_fraction(pos_y: int, height: int) -> int {
    if pos_y < 0 {
        0
    } else if pos_y > height {
        1_000_000
    } else {
        pos_y * 1_000_000 / height
    }
}

impl EdgeTracker {
    pub fn new() -> (r: Self)
        ensures
            !r.check_sides,
            !r.left_cleared,
    {
        EdgeTracker { check_sides: false, left_cleared: false }
    }

    /// A left-edge jump arms edge checking and requires the cursor to clear
    /// the left edge again before a right-edge crossing may be reported.
    pub fn arm(&mut self)
        ensures
            final(self).check_sides,
            !final(self).left_cleared,
    {
        self.check_sides = true;
        self.left_cleared = false;
    }

    /// Hiding the cursor disarms edge checking.
    pub fn disarm(&mut self)
        ensures
            !final(self).check_sides,
            !final(self).left_cleared,
    {
        self.check_sides = false;
        self.left_cleared = false;
    }

    /// Inspect one clamped cursor position.  Reports the vertical fraction
    /// when the cursor stands within the right-edge margin and the left edge
    /// has been cleared; positions far enough from the left edge clear it.
    pub fn observe_position(&mut self, pos_x: i32, pos_y: i32, width: i32, height: i32) -> (r:
        Option<u64>)
        requires
            width >= 0,
            height >= 1,
        ensures
            final(self).check_sides == old(self).check_sides,
            r is Some <==> old(self).check_sides && pos_x > width - RIGHT_EDGE_MARGIN && old(
                self,
            ).left_cleared,
            r matches Some(f) ==> f as int == spec_height_fraction(pos_y as int, height as int)
                && f <= 1_000_000,
            final(self).left_cleared == (old(self).left_cleared || (old(self).check_sides && pos_x
                <= width - RIGHT_EDGE_MARGIN && pos_x > CENTER_MARGIN)),
    {
        if !self.check_sides {
            return None;
        }
        if pos_x > width - RIGHT_EDGE_MARGIN {
            if self.left_cleared {
                let f: u64 = if pos_y < 0 {
                    0
                } else if pos_y > height {
                    1_000_000
                } else {
                    (pos_y as u64) * 1_000_000 / (height as u64)
                };
                proof {
                    if 0 <= pos_y <= height {
                        assert((pos_y as int) * 1_000_000 / (height as int) <= 1_000_000) by (
                        nonlinear_arith)
                            requires
                                0 <= pos_y as int <= height as int,
                                height as int >= 1,
                        ;
                    }
                }
                Some(f)
            } else {
                None
            }
        } else {
            if pos_x > CENTER_MARGIN {
                self.left_cleared = true;
            }
            None
        }
    }
}

/// Where a left-edge jump warps the cursor: a few pixels from the right
/// edge, at the requested fraction of the screen height (clamped to the
/// unit range).
pub fn leftjump_target(width: i32, height: i32, height_frac_micro: i64) -> (r: (i64, i64))
    requires
        width >= 0,
        height >= 0,
    ensures
        r.0 == width - JUMP_MARGIN,
        r.1 == height * clamp_unit_micro(height_frac_micro as int) / 1_000_000,
{
    let f: i64 = if height_frac_micro < 0 {
        0
    } else if height_frac_micro > 1_000_000 {
        1_000_000
    } else {
        height_frac_micro
    };
    let x: i64 = (width as i64) - JUMP_MARGIN;
    proof {
        vstd::arithmetic::mul::lemma_mul_nonnegative(height as int, f as int);
        vstd::arithmetic::mul::lemma_mul_upper_bound(height as int, 0x8000_0000, f as int, 1_000_000);
    }
    let y: i64 = (height as i64) * f / 1_000_000;
    (x, y)
}

/// Where hiding parks the cursor: at the right edge, near the bottom.
pub fn mousehide_target(width: i32, height: i32) -> (r: (i64, i64))
    requires
        width >= 0,
        height >= 0,
    ensures
        r.0 == width as int,
        r.1 == height * 97 / 100,
{
    ((width as i64), (height as i64) * 97 / 100)
}

} // verus!
