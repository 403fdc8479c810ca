use vstd::prelude::*;

verus! {

/// Ways a solving run can fail.
#[derive(Clone, Copy, Debug, PartialEq, Eq, Structural)]
pub enum SolverError {
    /// A supplied word does not have exactly five letters.
    InvalidWordLength,
    /// The word-list source could not be read or is ill-formed.
    MalformedDictionarySource,
    /// Scoring was asked for against no candidate words.
    EmptyDictionary,
}

} // verus!
