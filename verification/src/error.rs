//! Failures of block-state and model resolution.

use vstd::prelude::*;

verus! {

/// What went wrong.
#[derive(Clone, Copy, PartialEq, Eq, Debug, Structural)]
pub enum ErrorKind {
    /// A block-state string or a predicate is malformed.
    Parse,
    /// A block-state, model, parent or texture is missing.
    NotFound,
    /// A parent chain or a texture-variable chain loops.
    Cycle,
}

/// A failure, as contracts speak of it: its kind and the offending name.
pub struct Failure {
    pub kind: ErrorKind,
    pub subject: Seq<char>,
}

/// Whether an outcome is a failure of the kind `Cycle`.
pub open spec fn is_cycle<T>(outcome: Result<T, Failure>) -> bool {
    outcome matches Err(e) && e.kind == ErrorKind::Cycle
}

/// A fatal resolution failure together with the name it is about.
#[derive(Clone, Debug, PartialEq, Eq)]
pub struct ResolveError {
    pub kind: ErrorKind,
    pub subject: String,
}

impl ResolveError {
    /// The failure as a mathematical value.
    pub open spec fn view(&self) -> Failure {
        Failure { kind: self.kind, subject: self.subject@ }
    }

    /// A failure of kind `kind` about `subject`.
    pub fn new(kind: ErrorKind, subject: &str) -> (e: Self)
        ensures
            e@ == (Failure { kind, subject: subject@ }),
    {
        ResolveError { kind, subject: subject.to_owned() }
    }

    /// A line of text that names the kind and the subject.
    pub fn message(&self) -> (s: String)
        ensures
            s@ == kind_label(self.kind) + ": "@ + self.subject@,
    {
        let label = match self.kind {
            ErrorKind::Parse => "parse error",
            ErrorKind::NotFound => "not found",
            ErrorKind::Cycle => "cycle",
        };
        let mut s = label.to_owned();
        s.append(": ");
        s.append(self.subject.as_str());
        s
    }
}

/// The words that `message` puts before the subject.
pub open spec fn kind_label(kind: ErrorKind) -> Seq<char> {
    match kind {
        ErrorKind::Parse => "parse error"@,
        ErrorKind::NotFound => "not found"@,
        ErrorKind::Cycle => "cycle"@,
    }
}

} // verus!
