//! Error values of the library.
use vstd::prelude::*;

verus! {

/// Errors of the tag writer.
#[derive(Debug, PartialEq, Eq)]
pub enum MetaError {
    /// The file with this name could not be written.
    Write(String),
    /// The file holds something that is not supported.
    Unsupported(String),
    /// No gain was computed for the file.
    NotComputed,
    /// Any other failure, with its message.
    Internal(String),
}

/// Errors of opening a file for decoding and tagging.
#[derive(Debug, PartialEq, Eq)]
pub enum NError {
    /// An I/O failure, with its message.
    IO(String),
    /// Any other failure, with its message.
    Internal(String),
    /// The file type is not supported.
    Unsupported(String),
}

/// Errors of walking a directory tree.
#[derive(Debug, PartialEq, Eq)]
pub enum WalkerError {
    /// A path that is neither a file nor a directory.
    QuantumError,
    /// An I/O failure, with its message.
    IO(String),
}

/// General errors of processing a unit.
#[derive(Debug, PartialEq, Eq)]
pub enum Error {
    /// A gain was asked for before it was computed.
    NotComputed,
    /// The loudness meter failed, with its message.
    Ebur(String),
    /// The dynamic-range meter failed, with its message.
    Dr(String),
    /// An I/O failure, with its message.
    IO(String),
    /// Any other failure, with its message.
    Internal(String),
    /// Something that is not supported.
    Unsupported(String),
}

/// Errors of a check in the tester: the two sides, as text.
#[derive(Debug, PartialEq, Eq)]
pub enum ExpectError {
    /// The sides were expected equal and are not.
    NotEq(String, String),
    /// The sides were expected different and are equal.
    Eq(String, String),
}

pub open spec fn error_from_n(x: NError) -> Error {
    match x {
        NError::IO(m) => Error::IO(m),
        NError::Internal(m) => Error::Internal(m),
        NError::Unsupported(m) => Error::Unsupported(m),
    }
}

impl From<NError> for Error {
    fn from(x: NError) -> (r: Error)
        ensures
            r == error_from_n(x),
    {
        match x {
            NError::IO(m) => Error::IO(m),
            NError::Internal(m) => Error::Internal(m),
            NError::Unsupported(m) => Error::Unsupported(m),
        }
    }
}

impl vstd::std_specs::convert::FromSpecImpl<NError> for Error {
    open spec fn obeys_from_spec() -> bool {
        true
    }

    open spec fn from_spec(v: NError) -> Error {
        error_from_n(v)
    }
}

impl Error {
    /// The general error for a failure of the tag writer; a failed write
    /// becomes an internal error whose message names the file.
    pub fn from_meta(x: MetaError) -> (r: Error)
        ensures
            match x {
                MetaError::Write(f) => r is Internal && r->Internal_0@ == "Couldn't write to: "@ + f@,
                MetaError::Unsupported(m) => r == Error::Unsupported(m),
                MetaError::NotComputed => r == Error::NotComputed,
                MetaError::Internal(m) => r == Error::Internal(m),
            },
    {
        match x {
            MetaError::Write(f) => Error::Internal("Couldn't write to: ".to_owned().concat(f.as_str())),
            MetaError::Unsupported(m) => Error::Unsupported(m),
            MetaError::NotComputed => Error::NotComputed,
            MetaError::Internal(m) => Error::Internal(m),
        }
    }
}

} // verus!
