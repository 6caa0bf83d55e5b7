//! Fixed-point values shared by the whole library: points, colours, circles,
//! random draws and arithmetic that stops at the ends of the integer range.

use vstd::prelude::*;

verus! {

/// One whole (a pixel, full opacity, the width of a random draw) in thousandths.
pub const UNIT: i64 = 1000;

/// Nanoseconds in one second; timestamps are counted in nanoseconds.
pub const NANOS_PER_SEC: u64 = 1_000_000_000;

/// A random draw is a number of thousandths from zero up to, not including, one whole.
pub open spec fn is_draw(d: i64) -> bool {
    0 <= d < UNIT
}

/// The nearest value to `v` that a coordinate can hold.
pub open spec fn clamped(v: int) -> int {
    if v < i64::MIN {
        i64::MIN as int
    } else if v > i64::MAX {
        i64::MAX as int
    } else {
        v
    }
}

/// Sum that stops at the ends of the range instead of wrapping.
pub fn add_clamped(a: i64, b: i64) -> (r: i64)
    ensures
        r == clamped(a + b),
{
    if b >= 0 {
        if a > i64::MAX - b {
            i64::MAX
        } else {
            a + b
        }
    } else {
        if a < i64::MIN - b {
            i64::MIN
        } else {
            a + b
        }
    }
}

/// Difference that stops at the ends of the range instead of wrapping.
pub fn sub_clamped(a: i64, b: i64) -> (r: i64)
    ensures
        r == clamped(a - b),
{
    if b >= 0 {
        if a < i64::MIN + b {
            i64::MIN
        } else {
            a - b
        }
    } else {
        if a > i64::MAX + b {
            i64::MAX
        } else {
            a - b
        }
    }
}

/// Whole seconds from `since` to `now`; zero when `now` is not later.
pub open spec fn elapsed_secs(since: u64, now: u64) -> int {
    if now >= since {
        (now - since) / (NANOS_PER_SEC as int)
    } else {
        0
    }
}

/// Whole seconds that have passed between two readings of a clock that
/// counts nanoseconds. A reading earlier than `since` counts as no time.
pub fn seconds_between(since: u64, now: u64) -> (secs: u64)
    ensures
        secs == elapsed_secs(since, now),
{
    if now >= since {
        (now - since) / NANOS_PER_SEC
    } else {
        0
    }
}

/// A position or a velocity in the plane, in thousandths of a pixel.
#[derive(Clone, Copy, Debug, PartialEq, Eq, Structural)]
pub struct Point {
    pub x: i64,
    pub y: i64,
}

/// A colour with its opacity, each channel in thousandths.
#[derive(Clone, Copy, Debug, PartialEq, Eq, Structural)]
pub struct Color {
    pub red: i64,
    pub green: i64,
    pub blue: i64,
    pub alpha: i64,
}

impl Color {
    /// Every channel lies between nothing and one whole.
    pub open spec fn valid(self) -> bool {
        &&& 0 <= self.red <= UNIT
        &&& 0 <= self.green <= UNIT
        &&& 0 <= self.blue <= UNIT
        &&& 0 <= self.alpha <= UNIT
    }

    /// Whether every channel lies between nothing and one whole.
    pub fn in_range(&self) -> (ok: bool)
        ensures
            ok == self.valid(),
    {
        0 <= self.red && self.red <= UNIT && 0 <= self.green && self.green <= UNIT && 0 <= self.blue
            && self.blue <= UNIT && 0 <= self.alpha && self.alpha <= UNIT
    }

    /// The same colour with another opacity.
    pub open spec fn with_alpha(self, alpha: i64) -> Color {
        Color { red: self.red, green: self.green, blue: self.blue, alpha }
    }
}

/// A filled circle to be painted: where, how large, in which colour.
#[derive(Clone, Copy, Debug, PartialEq, Eq, Structural)]
pub struct Circle {
    pub center: Point,
    pub radius: i64,
    pub color: Color,
}

} // verus!
