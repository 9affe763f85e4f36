//! The ways in which a request to the occupancy engine can fail.

use vstd::prelude::*;

verus! {

/// Why an operation was refused or could not finish.
#[derive(Clone, Copy, Debug, PartialEq, Eq, Structural)]
pub enum EngineError {
    /// The resident or the room that the request refers to does not exist.
    NotFound,
    /// The caller supplied an identifier that is not 24 hexadecimal digits.
    InvalidIdentifier,
    /// The resident already occupies the requested room.
    AlreadyAssigned,
    /// The requested room has no free place.
    RoomFull,
    /// The document store failed while reading or writing.
    StoreError,
}

} // verus!
