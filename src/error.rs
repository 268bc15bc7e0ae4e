//! Failures that the library's own logic decides.

use vstd::prelude::*;

verus! {

/// Why a filename or a request could not be handled.
#[derive(Debug, Clone, Copy, PartialEq, Eq, Structural)]
pub enum GraderError {
    /// The archive's extension is missing or is none of `zip`, `tar`, `rar`.
    UnsupportedFormat,
    /// Neither identifier rule left a character of the filename.
    EmptyIdentifier,
}

impl GraderError {
    /// A human-readable description of the failure.
    pub fn describe(&self) -> (r: &'static str)
        ensures
            *self == GraderError::UnsupportedFormat ==> r@ == "Unsupported archive type"@,
            *self == GraderError::EmptyIdentifier ==> r@
                == "No student identifier can be derived from the filename"@,
    {
        match self {
            GraderError::UnsupportedFormat => "Unsupported archive type",
            GraderError::EmptyIdentifier => "No student identifier can be derived from the filename",
        }
    }
}

} // verus!
