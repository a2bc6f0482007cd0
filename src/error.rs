//! The ways a conversion can fail.

use vstd::prelude::*;

verus! {

/// Why a conversion stopped. A ply error carries the index of the offending
/// move or token, counted from 0.
#[derive(Clone, Copy, Debug, PartialEq, Eq, Structural)]
pub enum NotationError {
    /// The position string has the wrong shape or an invalid character.
    MalformedPosition,
    /// The move or token matches none of the recognised shapes.
    MalformedPly(usize),
    /// No square holds a piece that can have made the move.
    UnresolvableOrigin(usize),
}

} // verus!
