//! What the simulation reports when its own state cannot be trusted.

use vstd::prelude::*;

verus! {

/// A state that only a corrupted grid or a broken invariant can produce.
#[derive(Debug, Eq, PartialEq, Copy, Clone, Structural)]
pub enum InternalConsistencyError {
    /// Three bytes that are the encoding of no colour.
    UnknownColor,
    /// Food was due, and no cell of the grid was free to take it.
    BoardFull,
}

} // verus!
