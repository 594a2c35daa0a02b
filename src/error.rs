//! The errors that the decision matrix reports.
use vstd::prelude::*;

verus! {

/// What went wrong.
#[derive(Debug, Clone, Copy, PartialEq, Eq, Structural)]
pub enum ErrorKind {
    /// A project, criterion or priority set of that name already exists.
    DuplicateName,
    /// A project or criterion was given an empty name.
    EmptyName,
    /// No project, criterion or priority set has that name.
    NotFound,
    /// The operation needs an active priority set and none is active.
    NoActivePrioritySet,
    /// Stored workspace contents break one of the workspace's rules.
    InvalidContents,
    /// Any other failure, described by its message alone.
    General,
}

/// `r` is an error of the given kind.
pub open spec fn fails_with<T>(r: Result<T, RecicionError>, kind: ErrorKind) -> bool {
    r matches Err(e) && e.kind == kind
}

/// An error of the decision matrix: its kind and a message for people.
#[derive(Debug)]
pub struct RecicionError {
    pub kind: ErrorKind,
    pub message: String,
}

impl RecicionError {
    /// An error described by `message` alone.
    pub fn new(message: String) -> (r: RecicionError)
        ensures
            r.kind == ErrorKind::General,
            r.message@ == message@,
    {
        RecicionError { kind: ErrorKind::General, message }
    }

    /// An error of the given kind.
    pub fn with_kind(kind: ErrorKind, message: String) -> (r: RecicionError)
        ensures
            r.kind == kind,
            r.message@ == message@,
    {
        RecicionError { kind, message }
    }

    /// An error of the given kind whose message is `prefix`, `name` and
    /// `suffix` in a row.
    pub fn naming(kind: ErrorKind, prefix: &str, name: &str, suffix: &str) -> (r: RecicionError)
        ensures
            r.kind == kind,
            r.message@ == prefix@ + name@ + suffix@,
    {
        let mut message = String::from_str(prefix);
        message.append(name);
        message.append(suffix);
        RecicionError { kind, message }
    }
}

/// An error about the workspace file that is to be made or opened.
#[derive(Debug)]
pub struct WorkspaceError {
    pub message: String,
}

impl WorkspaceError {
    pub fn new(message: String) -> (r: WorkspaceError)
        ensures
            r.message@ == message@,
    {
        WorkspaceError { message }
    }
}

} // verus!
