//! The error that the storage helpers report when the database refuses a
//! request: an I/O error of kind `Other` that carries the database's own
//! error as its payload.

use vstd::prelude::*;

verus! {

/// The kinds of I/O error that the daemon reports.
#[derive(Clone, Copy, Debug, PartialEq, Eq, Structural)]
pub enum IoErrorKind {
    NotFound,
    Other,
}

/// An I/O error: its kind and the error value it carries, whose text is the
/// I/O error's text.
pub struct IoError<E> {
    pub kind: IoErrorKind,
    pub payload: E,
}

/// Wraps an error from another layer (the database) into an I/O error of
/// kind `Other` that carries that error itself.
pub fn to_io<E>(e: E) -> (res: IoError<E>)
    ensures
        res.kind == IoErrorKind::Other,
        res.payload == e,
{
    IoError { kind: IoErrorKind::Other, payload: e }
}

} // verus!
