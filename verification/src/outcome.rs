//! What a lookup can come to: a value, a miss, or a failure that concerns
//! one key only.

use vstd::prelude::*;

verus! {

/// Why the lookup of one key failed.
#[derive(Debug, Clone, Copy, PartialEq, Eq, Structural)]
pub enum LookupError {
    /// The requested column of the matched line is not valid UTF-8.
    Decode,
    /// The matched line has fewer columns than the requested index needs.
    ColumnRange,
}

/// The outcome of looking up one key.
#[derive(Debug, PartialEq, Eq)]
pub enum LookupResult {
    /// The key was found; this is the rendered value of the requested column.
    Found(String),
    /// No line of the table has the key.
    NotFound,
    /// A line has the key, but its value could not be produced.
    Failed(LookupError),
}

/// The mathematical value of a [`LookupResult`].
pub enum Outcome {
    Found(Seq<char>),
    NotFound,
    Failed(LookupError),
}

impl View for LookupResult {
    type V = Outcome;

    open spec fn view(&self) -> Outcome {
        match self {
            LookupResult::Found(value) => Outcome::Found(value@),
            LookupResult::NotFound => Outcome::NotFound,
            LookupResult::Failed(error) => Outcome::Failed(*error),
        }
    }
}

} // verus!
