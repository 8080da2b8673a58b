//! The error value shared by every fallible function of the library.

use vstd::prelude::*;
use vstd::string::StringExecFns;

verus! {

/// The category of a failure.
#[derive(Clone, Copy, Debug, PartialEq, Eq, Structural)]
pub enum ErrorKind {
    /// An invariant of the engine was violated, such as a plan of an
    /// unexpected shape reaching the rewriter.
    LogicalError,
    /// The query uses a feature that the engine does not support.
    UnsupportedFeature,
    /// The statement is recognised but has no implementation.
    UnImplement,
    /// An expression could not be evaluated against a block.
    EvaluationError,
    /// Two data types have no common super type.
    BadDataValueType,
    /// A pattern or statement is malformed.
    SyntaxException,
    /// A catalog operation was given an empty tenant.
    TenantIsEmpty,
    /// The database to create already exists.
    DatabaseAlreadyExists,
    /// The database is not known to a catalog layer.
    UnknownDatabase,
    /// The table is not known to a catalog layer.
    UnknownTable,
    /// Input bytes do not have the expected form.
    InvalidData,
}

/// A failure: its category and a message for the user.
#[derive(Clone, Debug, PartialEq, Eq)]
pub struct ErrorCode {
    pub kind: ErrorKind,
    pub message: String,
}

impl ErrorCode {
    /// An error of category `kind` with the text `message`.
    pub fn create(kind: ErrorKind, message: &str) -> (e: ErrorCode)
        ensures
            e.kind == kind,
            e.message@ == message@,
    {
        ErrorCode { kind, message: String::from_str(message) }
    }

    pub fn kind(&self) -> (k: ErrorKind)
        ensures
            k == self.kind,
    {
        self.kind
    }

    pub fn message(&self) -> (m: &str)
        ensures
            m@ == self.message@,
    {
        self.message.as_str()
    }
}

/// The outcome of a fallible operation.
pub type Result<T> = core::result::Result<T, ErrorCode>;

} // verus!
