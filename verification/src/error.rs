//! The error taxonomy shared by every fallible operation of the crate.

use vstd::prelude::*;
use vstd::string::StringExecFns;

verus! {

/// What went wrong, as far as a caller can act on it.
#[derive(Clone, Copy, Debug, PartialEq, Eq, Structural)]
pub enum ErrorKind {
    /// The table's engine or kind does not take the requested mutation.
    EngineNotSupported,
    /// The statement asks for something the engine cannot do: a predicate
    /// that is not deterministic, or row identities on a table without them.
    Unimplemented,
    /// A feature was used without the entitlement it needs.
    LicenseDenied,
    /// Another writer published first and the retries are used up.
    Conflict,
    /// An invariant of the planner itself was broken.
    Internal,
    /// The metadata store or the storage failed for now.
    Transient,
    /// A sort key or a column does not fit the schema it is used with.
    SchemaMismatch,
}

/// An error: its kind and a message for people.
#[derive(Debug)]
pub struct ErrorCode {
    pub kind: ErrorKind,
    pub message: String,
}

/// The mathematical value of an [`ErrorCode`].
pub struct ErrorView {
    pub kind: ErrorKind,
    pub message: Seq<char>,
}

impl View for ErrorCode {
    type V = ErrorView;

    open spec fn view(&self) -> ErrorView {
        ErrorView { kind: self.kind, message: self.message@ }
    }
}

impl ErrorCode {
    /// An error of the given kind with the given message.
    pub fn create(kind: ErrorKind, message: &str) -> (e: ErrorCode)
        ensures
            e.kind == kind,
            e.message@ == message@,
    {
        ErrorCode { kind, message: String::from_str(message) }
    }

    /// The kind of this error.
    pub fn kind(&self) -> (k: ErrorKind)
        ensures
            k == self.kind,
    {
        self.kind
    }

    /// The message of this error.
    pub fn message(&self) -> (m: String)
        ensures
            m@ == self.message@,
    {
        self.message.clone()
    }

    /// A copy of this error.
    pub fn duplicate(&self) -> (e: ErrorCode)
        ensures
            e@ == self@,
    {
        ErrorCode { kind: self.kind, message: self.message.clone() }
    }
}

} // verus!
