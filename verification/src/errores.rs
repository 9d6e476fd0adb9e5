//! The kinds of failure of an input or output operation that decide something.
use vstd::prelude::*;

verus! {

/// What kind of failure an operation met.
#[derive(Debug, PartialEq, Eq, Clone, Copy)]
pub enum ClaseDeError {
    NotFound,
    ConnectionRefused,
    Interrupted,
    PermissionDenied,
    ConnectionReset,
    InvalidData,
    Otra,
}

} // verus!
