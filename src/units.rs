use vstd::prelude::*;

verus! {

/// Simulation ticks per second.
pub const TICKS_PER_SECOND: u64 = 60;

/// Fixed-point scale: one pixel is this many length units, full stick deflection
/// is this many axis units.
pub const UNIT: i64 = 1000;

/// Axis magnitude at or below which input is treated as no input.
pub const DEAD_ZONE: i32 = 100;

/// Quotient rounded toward zero, as Rust's `/` on signed integers computes it.
pub open spec fn div_trunc(a: int, d: int) -> int {
    if a >= 0 {
        a / d
    } else {
        -((-a) / d)
    }
}

/// `v` confined to `[lo, hi]`; the lower bound is tested first.
pub open spec fn clamp_spec(v: int, lo: int, hi: int) -> int {
    if v < lo {
        lo
    } else if v > hi {
        hi
    } else {
        v
    }
}

/// A 2D vector of fixed-point integers.
#[derive(PartialEq, Eq, Structural, Clone, Copy, Debug)]
pub struct Vector {
    pub x: i64,
    pub y: i64,
}

impl Vector {
    pub fn new(x: i64, y: i64) -> (r: Vector)
        ensures
            r.x == x,
            r.y == y,
    {
        Vector { x, y }
    }
}

/// Position, horizontal flip and rotation of an entity.
#[derive(PartialEq, Eq, Structural, Clone, Copy, Debug)]
pub struct Transform {
    pub translation: Vector,
    /// `-1` when the sprite is mirrored horizontally, `1` otherwise.
    pub scale_x: i64,
    /// Rotation about the z axis, in microradians.
    pub rotation: i64,
}

impl Transform {
    pub fn from_xy(x: i64, y: i64) -> (r: Transform)
        ensures
            r.translation == (Vector { x, y }),
            r.scale_x == 1,
            r.rotation == 0,
    {
        Transform { translation: Vector { x, y }, scale_x: 1, rotation: 0 }
    }
}

} // verus!
