use vstd::prelude::*;

verus! {

/// The ways in which an operation on records can fail.
#[derive(Debug)]
pub enum PapError {
    /// No stored record matches the given identity or prefix.
    NotFound(String),
    /// More than one stored identity starts with the given prefix; all of them are listed.
    Ambiguous(Vec<String>),
    /// Stored or edited text does not parse as a record; the parser's message is kept.
    Decode(String),
    /// A stage token other than `I`, `II`, `III` or `IV`.
    InvalidStage(String),
    /// A filesystem operation failed for a reason other than absence.
    Io(String),
}

} // verus!
