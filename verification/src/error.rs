use vstd::prelude::*;

verus! {

/// The ways an operation of this crate can fail.
#[derive(Clone, Copy, Debug, PartialEq, Eq, Structural)]
pub enum EditorError {
    /// A grid was asked for with zero rows or zero columns.
    InvalidDimension,
    /// A coordinate lies outside the grid.
    OutOfBounds,
    /// A saved document lacks a field, or its fields contradict each other.
    MalformedDocument,
    /// A cell entry of a saved document is neither a name nor null.
    TypeMismatch,
    /// No icon of the registry carries the name that was asked for.
    NotFound,
}

} // verus!
