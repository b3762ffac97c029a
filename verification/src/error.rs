//! The ways in which a conversion is refused.

use vstd::prelude::*;

verus! {

/// A palette holds more colours than the index width can address.
#[derive(Debug, Clone, Copy, PartialEq, Eq, Structural)]
pub struct CapacityError {
    /// The number of colours in the palette.
    pub actual: usize,
    /// The number of colours that the index width can address.
    pub maximum: usize,
}

/// One of the two axes of an image.
#[derive(Debug, Clone, Copy, PartialEq, Eq, Structural)]
pub enum Axis {
    Width,
    Height,
}

/// An image that is to be cut into tiles has a side that is no multiple of 8.
#[derive(Debug, Clone, Copy, PartialEq, Eq, Structural)]
pub struct DimensionError {
    /// The side that does not conform: the width, if both do not.
    pub axis: Axis,
    /// The length of that side in pixels.
    pub value: u32,
}

/// Options that the output formats do not offer together.
#[derive(Debug, Clone, Copy, PartialEq, Eq, Structural)]
pub enum UnsupportedCombinationError {
    /// Run-length compression was asked for with direct-colour output.
    RleWithDirectColour,
    /// 4-bit tiles were asked for of an image with more than 16 colours.
    FourBitTilesOverflow,
}

/// A sequence that is to be packed does not fill a whole number of words.
#[derive(Debug, Clone, Copy, PartialEq, Eq, Structural)]
pub struct FramingError {
    /// The number of values in the sequence.
    pub length: usize,
    /// The number of values that one word takes.
    pub factor: usize,
}

/// Why a conversion failed.
#[derive(Debug, Clone, Copy, PartialEq, Eq, Structural)]
pub enum ConvertError {
    Capacity(CapacityError),
    Dimension(DimensionError),
    UnsupportedCombination(UnsupportedCombinationError),
    Framing(FramingError),
}

} // verus!
