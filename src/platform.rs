//! Operating-system hooks of a platform that has none.

use vstd::prelude::*;

verus! {

/// The kinds of I/O error a platform without an operating system can report.
#[derive(Debug, Clone, Copy, PartialEq, Eq, Structural)]
pub enum ErrorKind {
    Interrupted,
    Unsupported,
    Uncategorized,
}

/// An I/O error: its kind and a fixed description.
#[derive(Debug, Clone, Copy)]
pub struct IoError {
    pub kind: ErrorKind,
    pub message: &'static str,
}

/// The error for every operation this platform does not provide.
pub fn unsupported_err() -> (r: IoError)
    ensures
        r.kind == ErrorKind::Unsupported,
        r.message@ == "operation not supported on this platform"@,
{
    IoError { kind: ErrorKind::Unsupported, message: "operation not supported on this platform" }
}

/// Fails every operation as unsupported.
pub fn unsupported<T>() -> (r: Result<T, IoError>)
    ensures
        r matches Err(e) && e.kind == ErrorKind::Unsupported && e.message@ == "operation not supported on this platform"@,
{
    Err(unsupported_err())
}

/// No error code of this platform means an interrupted call.
pub fn is_interrupted(code: i32) -> (r: bool)
    ensures
        !r,
{
    false
}

/// Error codes of this platform carry no kind.
pub fn decode_error_kind(code: i32) -> (r: ErrorKind)
    ensures
        r == ErrorKind::Uncategorized,
{
    ErrorKind::Uncategorized
}

} // verus!
