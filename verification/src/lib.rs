//! Core of a lithophane generator: a grayscale image becomes a triangulated
//! surface whose local thickness encodes pixel brightness, over a backing
//! surface described by three user-supplied coordinate functions.
//!
//! This crate holds the discrete structure of that pipeline, fully verified:
//! the stepped index sequences that drive grid sampling, the border handling
//! around the sampled grid, the triangulation plans for the full lithophane
//! and for the flat preview, and the byte-exact binary mesh serialization.
//! Floating-point evaluation of the coordinate functions, normals and depth
//! offsets happens in the surrounding application, which feeds plain values
//! through the functions here.

use vstd::prelude::*;

pub mod grid;
pub mod indices;
pub mod mesh;
pub mod stl;

verus! {

/// Width and height of a decoded image, reported to callers that only need
/// the raster's size.
pub struct ImageDimensions {
    pub width: u32,
    pub height: u32,
}

/// Error raised when three points handed to the triangle builder are
/// collinear or coincident, so that no face normal exists.
pub struct InvalidPointsError {}

impl InvalidPointsError {
    /// The user-facing description of the failure.
    pub fn message(&self) -> (s: String)
        ensures
            s@ == "all three points for this triangle are in the same line"@,
    {
        "all three points for this triangle are in the same line".to_string()
    }
}

} // verus!
