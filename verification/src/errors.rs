//! The error taxonomy of the supervisor.
//!
//! Every failure an operation can report is one of these variants; the
//! variants that carry a `String` hold a sanitized diagnostic drawn from the
//! worker's standard-error stream.

use vstd::prelude::*;

verus! {

/// Why a supervisor operation failed.
#[derive(Debug, PartialEq, Eq)]
pub enum ErrorKind {
    /// The command was not a simple executable name.
    InvalidCommand,
    /// The operating system could not create the worker process.
    SpawnFailed,
    /// One of the worker's three standard streams could not be captured.
    PipeCaptureFailed,
    /// No worker is registered (or resident) under the given identifier.
    WorkerNotFound,
    /// Writing the request line to the worker's standard input failed.
    WorkerWriteFailed(String),
    /// The worker's standard output reached end-of-stream or errored.
    WorkerTerminated(String),
    /// No response line arrived within the configured read timeout.
    ResponseTimeout,
    /// A response line exceeded the configured maximum length.
    ResponseTooLarge,
    /// Too many lines were skipped without finding a response.
    IterationLimitExceeded,
}

impl ErrorKind {
    /// A short, stable description of the failure; the variants carrying a
    /// diagnostic return that diagnostic unchanged.
    pub fn message(&self) -> (r: String)
        ensures
            r@ == self.spec_message(),
    {
        match self {
            ErrorKind::InvalidCommand => "Invalid command: must be a simple executable name".to_owned(),
            ErrorKind::SpawnFailed => "Failed to start worker process".to_owned(),
            ErrorKind::PipeCaptureFailed => "Failed to capture worker standard streams".to_owned(),
            ErrorKind::WorkerNotFound => "Worker not connected".to_owned(),
            ErrorKind::WorkerWriteFailed(d) => d.clone(),
            ErrorKind::WorkerTerminated(d) => d.clone(),
            ErrorKind::ResponseTimeout => "Worker response timeout".to_owned(),
            ErrorKind::ResponseTooLarge => "Worker response line exceeded size limit".to_owned(),
            ErrorKind::IterationLimitExceeded => "Worker response exceeded iteration limit".to_owned(),
        }
    }

    /// What `message` returns, variant by variant.
    pub open spec fn spec_message(&self) -> Seq<char> {
        match self {
            ErrorKind::InvalidCommand => "Invalid command: must be a simple executable name"@,
            ErrorKind::SpawnFailed => "Failed to start worker process"@,
            ErrorKind::PipeCaptureFailed => "Failed to capture worker standard streams"@,
            ErrorKind::WorkerNotFound => "Worker not connected"@,
            ErrorKind::WorkerWriteFailed(d) => d@,
            ErrorKind::WorkerTerminated(d) => d@,
            ErrorKind::ResponseTimeout => "Worker response timeout"@,
            ErrorKind::ResponseTooLarge => "Worker response line exceeded size limit"@,
            ErrorKind::IterationLimitExceeded => "Worker response exceeded iteration limit"@,
        }
    }
}

} // verus!
