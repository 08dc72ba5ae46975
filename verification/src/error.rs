//! The library's error type.

use vstd::prelude::*;

verus! {

/// An error from the library's own logic. Failures of the windowing and
/// rendering layers are reported by those layers themselves.
#[derive(Debug, Clone, Copy, PartialEq, Eq, Structural)]
pub enum Error {
    /// Font image data could not be read, or its glyph cells would be
    /// zero-sized.
    BadFont,
}

} // verus!
