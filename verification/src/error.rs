//! The ways in which the library's own functions fail.

use vstd::prelude::*;

verus! {

/// A failure that ends a scaffolding run.
#[derive(Clone, Copy, Debug, PartialEq, Eq, Structural)]
pub enum ScaffoldError {
    /// A manifest is not a well-formed JSON object.
    Parse,
    /// A manifest could not be written out as JSON text.
    Serialize,
    /// The request does not have the shape that a run needs.
    InvalidRequest,
}

/// What a failure is reported as.
pub open spec fn message_of(error: ScaffoldError) -> Seq<char> {
    match error {
        ScaffoldError::Parse => "Cannot parse package.json"@,
        ScaffoldError::Serialize => "Failed to serialize package.json"@,
        ScaffoldError::InvalidRequest => "The request cannot be scaffolded"@,
    }
}

impl ScaffoldError {
    /// The text that reports this failure.
    pub fn message(&self) -> (text: String)
        ensures
            text@ == message_of(*self),
    {
        match self {
            ScaffoldError::Parse => "Cannot parse package.json".to_owned(),
            ScaffoldError::Serialize => "Failed to serialize package.json".to_owned(),
            ScaffoldError::InvalidRequest => "The request cannot be scaffolded".to_owned(),
        }
    }
}

} // verus!
