//! The two failure channels of the bridge: the structured error a byte sink
//! raises, and the payload-free signal the text contract allows.

use vstd::prelude::*;

verus! {

/// The category of a structured sink failure.
#[derive(Clone, Copy, PartialEq, Eq, Structural, Debug)]
pub enum IoErrorKind {
    NotFound,
    PermissionDenied,
    BrokenPipe,
    WriteZero,
    Interrupted,
    UnexpectedEof,
    Other,
}

/// A structured failure raised by a byte sink: a category together with a
/// descriptive payload.
#[derive(PartialEq, Eq, Debug)]
pub struct IoError {
    pub kind: IoErrorKind,
    pub message: String,
}

impl IoError {
    /// Builds a structured error from its category and payload.
    pub fn new(kind: IoErrorKind, message: String) -> (r: IoError)
        ensures
            r == (IoError { kind, message }),
    {
        IoError { kind, message }
    }
}

/// The payload-free failure signal of the text-writing contract. It says
/// that a write failed and nothing more; the structured cause travels out of
/// band, in the adapter's error slot.
#[derive(Clone, Copy, PartialEq, Eq, Structural, Debug)]
pub struct SignalError;

} // verus!
