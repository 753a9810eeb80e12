//! The palette that generated voxels are painted from.

use vstd::prelude::*;

verus! {

/// A named colour. The renderer owns the exact shade of each name.
#[derive(Clone, Copy, Debug, PartialEq, Eq, Structural, Hash)]
pub enum Color {
    Red,
    Green,
    Blue,
    White,
    Black,
    Orange,
    Brown,
    Yellow,
    Purple,
    Grey,
    WaterBlue,
    /// The ground of forests and fields.
    Grass,
    /// The ground of deserts.
    Sand,
}

} // verus!
