//! Shared failure kinds: transport failure, serialization failure, a
//! structured checker outcome, and a missing key in the local store.

use vstd::prelude::*;
use crate::CheckerResult;

verus! {

/// Everything a capability call or a lifecycle call can fail with.
///
/// A `CheckerError` carries a diagnostic verdict rather than a defect; the
/// driver converts it into the stored outcome. Every other kind is fatal
/// for the run.
#[derive(Debug, Clone, Copy, PartialEq, Eq, Structural)]
pub enum Error {
    /// Channel or file transport failed.
    IoError,
    /// Malformed or unexpected JSON shape.
    SerdeError,
    /// A structured checker outcome raised by checker logic.
    CheckerError(CheckerResult),
    /// The requested key was never stored (local backend only).
    NoSuchItem,
}

impl From<CheckerResult> for Error {
    fn from(r: CheckerResult) -> (e: Error) {
        Error::CheckerError(r)
    }
}

impl vstd::std_specs::convert::FromSpecImpl<CheckerResult> for Error {
    open spec fn obeys_from_spec() -> bool {
        true
    }

    open spec fn from_spec(r: CheckerResult) -> Error {
        Error::CheckerError(r)
    }
}

} // verus!
