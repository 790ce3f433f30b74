use vstd::prelude::*;

verus! {

/// A single colour sample: three independent channel values, each in `[0, 255]`.
/// Alpha is handled only at the image-I/O boundary and never enters the core.
#[derive(Clone, Copy, PartialEq, Eq, Structural, Debug)]
pub struct Color {
    pub r: u8,
    pub g: u8,
    pub b: u8,
}

impl Color {
    pub fn new(r: u8, g: u8, b: u8) -> (c: Color)
        ensures
            c == (Color { r, g, b }),
    {
        Color { r, g, b }
    }
}

/// Absolute difference of two channel values, as a mathematical integer.
pub open spec fn abs_diff(a: int, b: int) -> int {
    if a >= b {
        a - b
    } else {
        b - a
    }
}

/// L1 distance between two colours in channel space: the sum of absolute
/// per-channel differences. This fixed metric is the one the matcher uses;
/// no perceptual distance is involved.
pub open spec fn dist(a: Color, b: Color) -> int {
    abs_diff(a.r as int, b.r as int) + abs_diff(a.g as int, b.g as int) + abs_diff(
        a.b as int,
        b.b as int,
    )
}

/// Two colours are at distance zero exactly when they are equal.
pub proof fn lemma_dist_zero(a: Color, b: Color)
    ensures
        dist(a, b) == 0 <==> a == b,
{
}

/// The L1 distance, computed executably. The largest possible value is
/// 3 * 255 = 765, which fits comfortably in a u16.
pub fn distance(a: &Color, b: &Color) -> (d: u16)
    ensures
        d as int == dist(*a, *b),
{
    let dr: u8 = if a.r >= b.r {
        a.r - b.r
    } else {
        b.r - a.r
    };
    let dg: u8 = if a.g >= b.g {
        a.g - b.g
    } else {
        b.g - a.g
    };
    let db: u8 = if a.b >= b.b {
        a.b - b.b
    } else {
        b.b - a.b
    };
    dr as u16 + dg as u16 + db as u16
}

/// Saturating correction of a channel value to `[0, 255]`.
pub open spec fn clamp(v: int) -> int {
    if v < 0 {
        0
    } else if v > 255 {
        255
    } else {
        v
    }
}

/// A configuration fault, detected eagerly before any pixel is processed.
/// Each variant carries a description of the offending input where one exists.
#[derive(Debug)]
pub enum ConfigurationError {
    /// The palette holds no colours.
    EmptyPalette,
    /// No diffusion kernel is registered under this name.
    UnknownKernel(String),
    /// A palette entry could not be parsed as a colour.
    InvalidColor(String),
}

} // verus!
