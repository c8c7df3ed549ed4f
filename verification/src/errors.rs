//! Error values returned by the coordinate system, the chunk store and
//! the payload codec. All of these signal expected, recoverable
//! conditions and are returned as values, never panicked.

use vstd::prelude::*;

verus! {

/// An edit or query targeted a chunk that is not currently loaded.
#[derive(Debug, Clone, Copy, PartialEq, Eq, Structural)]
pub struct NotLoadedError;

/// Why offsetting a local block position failed.
#[derive(Debug, Clone, Copy, PartialEq, Eq, Structural)]
pub enum OffsetError {
    /// The resulting position would lie in a different chunk.
    DifferentChunk,
    /// The resulting y level would leave the world height range.
    OutOfBounds,
}

/// A serialized chunk payload was malformed.
#[derive(Debug, Clone, Copy, PartialEq, Eq, Structural)]
pub enum DecodeError {
    /// The compressed stream could not be decompressed.
    BadStream,
    /// The decompressed data does not have the exact payload length.
    BadLength,
}

impl NotLoadedError {
    /// A human-readable description of this error.
    pub fn message(&self) -> String {
        "The chunk being modified has not been loaded".to_string()
    }
}

impl OffsetError {
    /// A human-readable description of this error.
    pub fn message(&self) -> String {
        match self {
            OffsetError::DifferentChunk => "tried to offset into different chunk".to_string(),
            OffsetError::OutOfBounds => "tried to offset outside y bounds".to_string(),
        }
    }
}

} // verus!
