//! Fixed-point RGB colors.
//!
//! A channel holds an intensity in steps of 1/1020 of full intensity. The step
//! is the least common multiple of the two grids the palettes use: every 8-bit
//! level `v / 255` of a hex palette file is exactly `4 * v / 1020`, and every
//! quarter intensity (0.25, 0.5, 0.75) of the built-in material palette is
//! exact as well.

use vstd::prelude::*;

verus! {

/// Full intensity of a channel.
pub const CHANNEL_FULL: u16 = 1020;

/// A color with fixed-point red, green and blue channels (see the module docs).
#[derive(Clone, Copy, Debug, PartialEq, Eq, Structural)]
pub struct Rgb {
    pub r: u16,
    pub g: u16,
    pub b: u16,
}

/// The channel value of the 8-bit level `v`, that is `v / 255` of full intensity.
pub open spec fn level_to_channel(v: u8) -> u16 {
    (4 * v) as u16
}

/// Squared euclidean distance between two colors, in squared channel steps.
pub open spec fn spec_distance_squared(a: Rgb, b: Rgb) -> nat {
    let dr = a.r - b.r;
    let dg = a.g - b.g;
    let db = a.b - b.b;
    (dr * dr + dg * dg + db * db) as nat
}

impl Rgb {
    /// Black: every channel at zero.
    pub open spec fn spec_black() -> Rgb {
        Rgb { r: 0, g: 0, b: 0 }
    }

    /// Black: every channel at zero.
    pub fn black() -> (c: Rgb)
        ensures
            c == Rgb::spec_black(),
    {
        Rgb { r: 0, g: 0, b: 0 }
    }

    /// The color with the given 8-bit levels (each `level / 255` of full intensity).
    pub fn from_levels(r: u8, g: u8, b: u8) -> (c: Rgb)
        ensures
            c == (Rgb { r: level_to_channel(r), g: level_to_channel(g), b: level_to_channel(b) }),
    {
        Rgb { r: 4 * (r as u16), g: 4 * (g as u16), b: 4 * (b as u16) }
    }
}

/// An 8-bit level keeps its proportion: level `v` of 255 is channel
/// `level_to_channel(v)` of `CHANNEL_FULL`, so 0 is off and 255 is full.
pub proof fn law_level_scale(v: u8)
    ensures
        255 * level_to_channel(v) == CHANNEL_FULL * v,
        level_to_channel(v) <= CHANNEL_FULL,
{
}

fn channel_diff_squared(x: u16, y: u16) -> (d: u64)
    ensures
        d == (x - y) * (x - y),
        d <= 65535 * 65535,
{
    let diff: u64 = if x >= y { (x - y) as u64 } else { (y - x) as u64 };
    assert(diff * diff == (x - y) * (x - y)) by (nonlinear_arith)
        requires
            diff == x - y || diff == y - x,
    ;
    assert(diff * diff <= 65535 * 65535) by (nonlinear_arith)
        requires
            diff <= 65535,
    ;
    diff * diff
}

/// Squared distance between two colors; comparing squared distances orders
/// colors by closeness without a square root.
pub fn distance_squared(a: Rgb, b: Rgb) -> (d: u64)
    ensures
        d == spec_distance_squared(a, b),
{
    let dr = channel_diff_squared(a.r, b.r);
    let dg = channel_diff_squared(a.g, b.g);
    let db = channel_diff_squared(a.b, b.b);
    dr + dg + db
}

} // verus!
