//! The engine's failure type. Backend faults from the version-control
//! collaborator are carried through unchanged; the remaining variants are the
//! engine's own: content that cannot be merged line-by-line, a diff stream
//! that breaks the documented hunk invariants, and an impossible conflict
//! shape reported by the backend.

use vstd::prelude::*;

verus! {

#[derive(Debug)]
pub enum Fail {
    /// An error surfaced by the version-control backend.
    Backend(git2::Error),
    /// A blob was binary where line content was required.
    BinaryContent,
    /// A diff hunk stream was out of order or out of bounds.
    MalformedHunks,
    /// The backend reported a conflict with neither side present.
    MissingEntry,
    /// A rebase step of a kind the engine does not replay.
    UnsupportedStep,
    /// The replay ran past the engine's step cap: a malformed backend walk.
    IterationCap,
    /// A commit message could not be read as text.
    InvalidMessage,
}

pub type Maybe<T> = Result<T, Fail>;

pub type Attempt = Result<(), Fail>;

impl Fail {
    /// A short description for presentation layers.
    pub fn message(&self) -> String {
        match self {
            Fail::Backend(_) => "backend error".to_owned(),
            Fail::BinaryContent => "cannot load binary data line-by-line".to_owned(),
            Fail::MalformedHunks => "diff produced an out-of-order hunk stream".to_owned(),
            Fail::MissingEntry => "expected either main or branch entry".to_owned(),
            Fail::UnsupportedStep => "unsupported rebase operation".to_owned(),
            Fail::IterationCap => "replay exceeded the step cap".to_owned(),
            Fail::InvalidMessage => "invalid characters in previous message".to_owned(),
        }
    }
}

} // verus!
