//! Error taxonomy of the scene-composition core.

use vstd::prelude::*;

verus! {

/// Why a call into the core failed.
///
/// `Validation` and `DuplicateKey` are recoverable: the call fails and the
/// core's state is unchanged.  `Backend` wraps a failure surfaced by the
/// graphics backend.  `InvariantViolation` marks a broken internal invariant
/// (for example a resource key that add-time validation should have
/// guaranteed exists); it is not designed to be recovered from.
#[derive(Clone, Copy, PartialEq, Eq, Structural, Debug)]
pub enum Error {
    /// Caller-supplied parameters are malformed or inconsistent.
    Validation,
    /// An `add_*` call used a key that is already present; replacement is
    /// unsupported by design.
    DuplicateKey,
    /// The graphics backend reported a failure.
    Backend,
    /// An internal invariant did not hold.
    InvariantViolation,
}

/// Result type used throughout the core.
pub type MResult<T> = Result<T, Error>;

impl Error {
    /// A short fixed description of the error kind, for callers that log.
    pub fn describe(&self) -> (r: &'static str)
        ensures
            r@ == match *self {
                Error::Validation => "invalid parameters"@,
                Error::DuplicateKey => "key already exists"@,
                Error::Backend => "graphics backend failure"@,
                Error::InvariantViolation => "internal invariant violated"@,
            },
    {
        match *self {
            Error::Validation => "invalid parameters",
            Error::DuplicateKey => "key already exists",
            Error::Backend => "graphics backend failure",
            Error::InvariantViolation => "internal invariant violated",
        }
    }

    /// The backend reported an error through its own API.
    pub fn from_vulkan_error() -> (r: Error)
        ensures
            r == Error::Backend,
    {
        Error::Backend
    }

    /// The backend implementation rejected a configuration request.
    pub fn from_vulkan_impl_error() -> (r: Error)
        ensures
            r == Error::Backend,
    {
        Error::Backend
    }
}

} // verus!
