//! Fixed-point arithmetic around the noise field.
//!
//! The noise field itself is sampled outside this library. What goes to it
//! and what comes back are whole numbers of millionths: a `NoisePoint` is the
//! place to sample, a reading is the field's value there, between minus one
//! and one, and a sample is that value brought into the range from zero to
//! one.

use vstd::prelude::*;

verus! {

/// One, in millionths.
pub const ONE: i32 = 1_000_000;

/// A place in the noise field, in millionths.
#[derive(Clone, Copy, Debug, PartialEq, Eq, Structural)]
pub struct NoisePoint {
    pub x: i64,
    pub z: i64,
}

/// The place that the column `(x, z)` samples at the rate `rate`, a number
/// of millionths per column.
pub open spec fn scaled(rate: u32, x: i32, z: i32) -> NoisePoint {
    NoisePoint { x: (rate * x) as i64, z: (rate * z) as i64 }
}

/// The place in the noise field that the column `(x, z)` samples at `rate`.
pub fn scale_point(rate: u32, x: i32, z: i32) -> (p: NoisePoint)
    ensures
        p == scaled(rate, x, z),
        p.x == rate * x,
        p.z == rate * z,
{
    let r: i64 = rate as i64;
    assert(i64::MIN <= r * (x as i64) <= i64::MAX) by (nonlinear_arith)
        requires
            0 <= r <= 0xffff_ffff,
            -0x8000_0000 <= x <= 0x7fff_ffff,
    ;
    assert(i64::MIN <= r * (z as i64) <= i64::MAX) by (nonlinear_arith)
        requires
            0 <= r <= 0xffff_ffff,
            -0x8000_0000 <= z <= 0x7fff_ffff,
    ;
    NoisePoint { x: r * (x as i64), z: r * (z as i64) }
}

/// The reading held to the field's range, from minus one to one.
pub open spec fn clamped(reading: int) -> int {
    if reading < -ONE {
        -ONE as int
    } else if reading > ONE {
        ONE as int
    } else {
        reading
    }
}

/// The sample of a reading: the reading, held to the field's range, brought
/// from `-ONE ..= ONE` to `0 ..= ONE`.
pub open spec fn sample_of(reading: int) -> int {
    (clamped(reading) + ONE) / 2
}

/// Turns a reading of the noise field into a sample. A reading outside the
/// field's range counts as the nearest bound.
pub fn normalize(reading: i32) -> (s: u32)
    ensures
        s == sample_of(reading as int),
        s <= ONE,
{
    let held: i32 = if reading < -ONE {
        -ONE
    } else if reading > ONE {
        ONE
    } else {
        reading
    };
    ((held + ONE) / 2) as u32
}

} // verus!
