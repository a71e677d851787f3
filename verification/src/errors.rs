//! The errors of the repository, and the kinds by which callers tell them apart.

use vstd::prelude::*;
use vstd::std_specs::convert::FromSpecImpl;
use vstd::string::StringExecFns;

verus! {

/// The kinds of failure that the repository reports.
#[derive(Debug, Clone, Copy, PartialEq, Eq, Structural)]
pub enum ErrorKind {
    /// The requested id has no matching row.
    NotFound,
    /// The operation conflicts with the current state.
    Conflict,
    /// The store failed to carry out a statement.
    StoreFailure,
    /// Grouped rows yielded a parent without the children that it must have.
    AggregationInconsistency,
}

/// The error of the operations on sessions and set performances.
#[derive(Debug, PartialEq, Eq)]
pub enum SessionError {
    /// A session of the same training day is still in progress.
    PreviousSessionInProgress,
    /// A session's day has no linked exercise.
    NoExercisesFound,
    /// No session matches the given id.
    NotFound,
    /// The store failed; the text says how.
    Error(String),
}

impl SessionError {
    /// The kind of this error.
    pub open spec fn kind_of(self) -> ErrorKind {
        match self {
            SessionError::PreviousSessionInProgress => ErrorKind::Conflict,
            SessionError::NoExercisesFound => ErrorKind::AggregationInconsistency,
            SessionError::NotFound => ErrorKind::NotFound,
            SessionError::Error(_) => ErrorKind::StoreFailure,
        }
    }

    /// Whether this error is a store failure that reads `text`.
    pub open spec fn says(self, text: Seq<char>) -> bool {
        self matches SessionError::Error(message) && message@ == text
    }

    /// The kind of this error.
    pub fn kind(&self) -> (kind: ErrorKind)
        ensures
            kind == self.kind_of(),
    {
        match self {
            SessionError::PreviousSessionInProgress => ErrorKind::Conflict,
            SessionError::NoExercisesFound => ErrorKind::AggregationInconsistency,
            SessionError::NotFound => ErrorKind::NotFound,
            SessionError::Error(_) => ErrorKind::StoreFailure,
        }
    }
}

impl From<String> for SessionError {
    fn from(msg: String) -> (error: Self) {
        SessionError::Error(msg)
    }
}

impl FromSpecImpl<String> for SessionError {
    open spec fn obeys_from_spec() -> bool {
        true
    }

    open spec fn from_spec(msg: String) -> Self {
        SessionError::Error(msg)
    }
}

/// A borrowed text becomes a store failure that reads the same. The text of
/// the error is an owned copy, so the contract speaks of its characters.
impl<'a> From<&'a str> for SessionError {
    fn from(msg: &'a str) -> (error: Self)
        ensures
            error matches SessionError::Error(text) && text@ == msg@,
    {
        SessionError::Error(String::from_str(msg))
    }
}

impl<'a> FromSpecImpl<&'a str> for SessionError {
    open spec fn obeys_from_spec() -> bool {
        false
    }

    open spec fn from_spec(msg: &'a str) -> Self {
        SessionError::Error(choose|text: String| text@ == msg@)
    }
}

/// The error of the operations on routines, training days, exercises and links.
#[derive(Debug, PartialEq, Eq)]
pub enum RepositoryError {
    /// No row matches the given id.
    NotFound,
    /// The store failed; the text says how.
    StoreFailure(String),
}

impl RepositoryError {
    /// The kind of this error.
    pub open spec fn kind_of(self) -> ErrorKind {
        match self {
            RepositoryError::NotFound => ErrorKind::NotFound,
            RepositoryError::StoreFailure(_) => ErrorKind::StoreFailure,
        }
    }

    /// Whether this error is a store failure that reads `text`.
    pub open spec fn says(self, text: Seq<char>) -> bool {
        self matches RepositoryError::StoreFailure(message) && message@ == text
    }

    /// The kind of this error.
    pub fn kind(&self) -> (kind: ErrorKind)
        ensures
            kind == self.kind_of(),
    {
        match self {
            RepositoryError::NotFound => ErrorKind::NotFound,
            RepositoryError::StoreFailure(_) => ErrorKind::StoreFailure,
        }
    }
}

} // verus!
