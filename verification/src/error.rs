//! Configuration errors reported before any pixel is computed.

use vstd::prelude::*;

verus! {

/// Why a rendering pass was refused.
#[derive(Clone, Copy, Debug, PartialEq, Eq, Structural)]
pub enum ConfigError {
    /// The source image has no pixels: its width or height is zero.
    EmptySource,
    /// The canvas has no pixels: its width or height is zero.
    EmptyCanvas,
    /// The canvas would need more bytes than a buffer can hold.
    CanvasTooLarge,
    /// The coordinate field does not hold one point per canvas pixel.
    FieldMismatch,
    /// The scale is zero or negative, so the projection sphere has no radius.
    DegenerateRadius,
    /// The offset or the radius is beyond what the projection can compute
    /// exactly.
    ParametersTooLarge,
}

} // verus!
