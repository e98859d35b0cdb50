use vstd::prelude::*;

verus! {

/// Errors reported by the buffers, pools and renderer.
#[derive(Clone, Copy, Debug, PartialEq, Eq, Structural)]
pub enum TuiError {
    /// A cell coordinate lies outside the grid.
    Bounds,
    /// A dimension is zero, or two buffers differ in size.
    Dimension,
    /// A payload is larger than a pool slot, or a pool has run out of slot indices.
    Capacity,
    /// A pool handle names an unknown slot, a stale generation, or a slot with no references.
    InvalidHandle,
    /// Stored bytes are not valid UTF-8.
    Encoding,
    /// Writing a debug dump failed.
    Io,
    /// An argument names no known setting (a cursor style, an overlay corner).
    InvalidArgument,
}

} // verus!
