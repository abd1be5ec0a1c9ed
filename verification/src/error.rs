use vstd::prelude::*;

verus! {

/// The kinds of failure that the logic reports.
#[derive(Debug, Clone, Copy, PartialEq, Eq, Structural)]
pub enum XError {
    BadArgument,
    BadOperation,
    BadParameter,
    Overflow,
    NotFound,
    Unexpected,
    LogicNotFound,
    LogicIDMismatch,
}

/// The result type used across the logic.
pub type XResult<T> = Result<T, XError>;

} // verus!
