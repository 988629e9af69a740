//! The ways in which a texture request is refused.

use vstd::prelude::*;

verus! {

/// Why a texture could not be produced.
#[derive(Debug, Clone, PartialEq, Eq)]
pub enum TextureError {
    /// A step description that is not of the form `name:start..end`; holds
    /// the description as it was given.
    MalformedStep(String),
    /// The steps do not cover `0..=255` exactly once.
    PartialRange,
    /// A blending percentage above 100; holds the percentage.
    BlendingOutOfRange(u8),
}

} // verus!
