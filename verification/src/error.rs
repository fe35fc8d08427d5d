//! The ways in which decoding or classifying a record can fail.

use vstd::prelude::*;

verus! {

/// Why a record was not decoded, or not stored.
#[derive(Debug, Clone, Copy, PartialEq, Eq, Structural)]
pub enum ReplayError {
    /// A field that the record needs ends beyond the end of the buffer.
    TruncatedBuffer,
    /// The tag bytes of the record match no game mode.
    UnrecognizedMode,
    /// The record decoded, but to the marker for an unmodelled two-player
    /// match, and it belongs to no bucket.
    ClassificationAnomaly,
}

impl ReplayError {
    /// The message shown for this error.
    pub open spec fn message_spec(self) -> Seq<char> {
        match self {
            ReplayError::TruncatedBuffer => "could not convert slice to array"@,
            ReplayError::UnrecognizedMode => "Error parsing the modifier"@,
            ReplayError::ClassificationAnomaly => "incorrect versus"@,
        }
    }

    /// The message shown for this error.
    pub fn message(&self) -> (text: &'static str)
        ensures
            text@ == self.message_spec(),
    {
        match self {
            ReplayError::TruncatedBuffer => "could not convert slice to array",
            ReplayError::UnrecognizedMode => "Error parsing the modifier",
            ReplayError::ClassificationAnomaly => "incorrect versus",
        }
    }
}

} // verus!
