//! The error taxonomy of the controller.

use vstd::prelude::*;

verus! {

/// Every failure the controller can report.
///
/// Each variant carries a human-readable description. `ValidationError` is
/// for bad input caught before any mutation, `NotFoundError` for an absent
/// VM or config, `AlreadyExistsError` for a name collision at commit time,
/// `SerializationError` for a malformed persisted config, `IoError` for a
/// filesystem failure, and `EngineError` wraps a failure reported by the
/// virtualization engine.
#[derive(Debug, Clone, PartialEq)]
pub enum Exception {
    ValidationError(String),
    NotFoundError(String),
    AlreadyExistsError(String),
    SerializationError(String),
    IoError(String),
    EngineError(String),
}

/// The kind of an [`Exception`], without its description. The create
/// workflow's state machine speaks in kinds; the messages stay with the
/// values.
#[derive(Debug, Clone, Copy, PartialEq, Eq, Structural)]
pub enum ErrorKind {
    Validation,
    NotFound,
    AlreadyExists,
    Serialization,
    Io,
    Engine,
}

impl Exception {
    pub open spec fn spec_kind(&self) -> ErrorKind {
        match self {
            Exception::ValidationError(_) => ErrorKind::Validation,
            Exception::NotFoundError(_) => ErrorKind::NotFound,
            Exception::AlreadyExistsError(_) => ErrorKind::AlreadyExists,
            Exception::SerializationError(_) => ErrorKind::Serialization,
            Exception::IoError(_) => ErrorKind::Io,
            Exception::EngineError(_) => ErrorKind::Engine,
        }
    }

    /// The kind of this error.
    pub fn kind(&self) -> (r: ErrorKind)
        ensures
            r == self.spec_kind(),
    {
        match self {
            Exception::ValidationError(_) => ErrorKind::Validation,
            Exception::NotFoundError(_) => ErrorKind::NotFound,
            Exception::AlreadyExistsError(_) => ErrorKind::AlreadyExists,
            Exception::SerializationError(_) => ErrorKind::Serialization,
            Exception::IoError(_) => ErrorKind::Io,
            Exception::EngineError(_) => ErrorKind::Engine,
        }
    }

    /// The description carried by the error, whatever its kind.
    pub fn message(&self) -> (r: String)
        ensures
            r@ == self.spec_message(),
    {
        match self {
            Exception::ValidationError(m) => m.clone(),
            Exception::NotFoundError(m) => m.clone(),
            Exception::AlreadyExistsError(m) => m.clone(),
            Exception::SerializationError(m) => m.clone(),
            Exception::IoError(m) => m.clone(),
            Exception::EngineError(m) => m.clone(),
        }
    }

    pub open spec fn spec_message(&self) -> Seq<char> {
        match self {
            Exception::ValidationError(m) => m@,
            Exception::NotFoundError(m) => m@,
            Exception::AlreadyExistsError(m) => m@,
            Exception::SerializationError(m) => m@,
            Exception::IoError(m) => m@,
            Exception::EngineError(m) => m@,
        }
    }
}

} // verus!
