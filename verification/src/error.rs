use vstd::prelude::*;

verus! {

/// What can go wrong when a frame or a converter is built or used.
#[derive(Clone, Copy, Debug, PartialEq, Eq, Structural)]
pub enum FrameError {
    /// A width, a height or a number of bytes per pixel was zero.
    InvalidDimensions,
    /// A character gradient held no character.
    EmptyGradient,
    /// A frame or an edge map handed to a conversion was inconsistent with
    /// itself or with the converter's settings.
    ConversionError,
}

} // verus!
