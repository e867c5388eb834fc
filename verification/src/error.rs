//! The error taxonomy: every failure is either an infrastructure failure
//! (`DbError`) or an application-level invariant violation (`LogicError`),
//! together with a human-readable message.

use vstd::prelude::*;

verus! {

/// The two kinds of failure the service distinguishes.
#[derive(Clone, Copy, Debug, PartialEq, Eq, Structural)]
pub enum ErrorKind {
    LogicError,
    DbError,
}

/// An error: a kind tag plus a human-readable message.
#[derive(Debug)]
pub struct Error {
    pub kind: ErrorKind,
    pub message: String,
}

impl Error {
    /// Create a database (infrastructure) error.
    pub fn db(msg: &str) -> (e: Error)
        ensures
            e.kind == ErrorKind::DbError,
            e.message@ == msg@,
    {
        Error { kind: ErrorKind::DbError, message: msg.to_owned() }
    }

    /// Create a logic (application invariant) error.
    pub fn logic(msg: &str) -> (e: Error)
        ensures
            e.kind == ErrorKind::LogicError,
            e.message@ == msg@,
    {
        Error { kind: ErrorKind::LogicError, message: msg.to_owned() }
    }

    /// Read the message, in place of a `Display` implementation.
    pub fn message(&self) -> (m: &str)
        ensures
            m@ == self.message@,
    {
        self.message.as_str()
    }
}

impl Clone for Error {
    fn clone(&self) -> (e: Self)
        ensures
            e == *self,
    {
        Error { kind: self.kind, message: self.message.clone() }
    }
}

} // verus!
