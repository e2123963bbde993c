//! The error taxonomy of the control surface.

use vstd::prelude::*;

verus! {

/// Why a control-surface operation failed.
///
/// `NotFound` is returned by `write` and `resize` when the identifier does
/// not denote a registered session. The other variants carry descriptive
/// text supplied by whoever observed the underlying failure: `SpawnFailure`
/// for PTY-open, command-resolution or process-start failures, `IoFailure`
/// for write/flush/resize failures, and `ReadFailure` for reader-loop
/// failures (those are never surfaced synchronously; they end the session's
/// reader instead).
#[derive(Debug)]
pub enum PtyError {
    NotFound,
    SpawnFailure(String),
    IoFailure(String),
    ReadFailure(String),
}

impl PtyError {
    /// True exactly when this is the unknown-identifier error.
    pub fn is_not_found(&self) -> (r: bool)
        ensures
            r == (self is NotFound),
    {
        match self {
            PtyError::NotFound => true,
            _ => false,
        }
    }
}

} // verus!
