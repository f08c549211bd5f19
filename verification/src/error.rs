//! The error type shared by template rendering, routing, and connection
//! handling.
use vstd::prelude::*;

verus! {

/// What went wrong, with a human-readable message.
#[derive(Debug)]
pub enum Error {
    /// An operation name could not be resolved, or an operation head was
    /// malformed.
    ParseTemplate(String),
    /// A template or file could not be found or read.
    LoadFile(String),
    /// Wrong parameter count or shape for an operation, an attribute path
    /// that is absent, or a value of the wrong shape.
    InvalidParams(String),
    /// A malformed request line, a header or body read failure, or a
    /// response write failure.
    Connection(String),
}

/// The four kinds of [`Error`], without their messages.
#[derive(PartialEq, Eq, Structural, Clone, Copy, Debug)]
pub enum ErrorKind {
    ParseTemplate,
    LoadFile,
    InvalidParams,
    Connection,
}

impl Error {
    /// The kind of this error.
    pub open spec fn spec_kind(&self) -> ErrorKind {
        match self {
            Error::ParseTemplate(_) => ErrorKind::ParseTemplate,
            Error::LoadFile(_) => ErrorKind::LoadFile,
            Error::InvalidParams(_) => ErrorKind::InvalidParams,
            Error::Connection(_) => ErrorKind::Connection,
        }
    }

    /// The kind of this error.
    pub fn kind(&self) -> (r: ErrorKind)
        ensures
            r == self.spec_kind(),
    {
        match self {
            Error::ParseTemplate(_) => ErrorKind::ParseTemplate,
            Error::LoadFile(_) => ErrorKind::LoadFile,
            Error::InvalidParams(_) => ErrorKind::InvalidParams,
            Error::Connection(_) => ErrorKind::Connection,
        }
    }

    /// The message carried by this error.
    pub open spec fn spec_message(&self) -> Seq<char> {
        match self {
            Error::ParseTemplate(s) => s@,
            Error::LoadFile(s) => s@,
            Error::InvalidParams(s) => s@,
            Error::Connection(s) => s@,
        }
    }

    /// The message carried by this error.
    pub fn message(&self) -> (r: &String)
        ensures
            r@ == self.spec_message(),
    {
        match self {
            Error::ParseTemplate(s) => s,
            Error::LoadFile(s) => s,
            Error::InvalidParams(s) => s,
            Error::Connection(s) => s,
        }
    }
}

/// The result type used throughout the library.
pub type WebResult<T> = Result<T, Error>;

} // verus!
