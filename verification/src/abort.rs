//! The fault protocol: every failure anywhere in the core becomes one of a
//! small set of halting categories, each with a fixed numeric exit code that
//! the hosting environment observes.

use vstd::prelude::*;

verus! {

/// Category of a halting signal. Halting is terminal: no value is returned to
/// the caller and no further code of the invocation runs.
#[derive(Clone, Copy, Debug, PartialEq, Eq, Structural)]
pub enum AbortCode {
    /// The invocation named a method identifier that no handler accepts.
    UnhandledMethod,
    /// State was accessed before the root pointer was ever set.
    PreconditionViolated,
    /// A state record (or the return payload) failed to encode or decode.
    MalformedRecord,
    /// The root pointer references data that the store no longer holds.
    CorruptRoot,
    /// An ambient host operation itself reported an error.
    HostFailure,
}

impl AbortCode {
    /// The numeric exit code reported for this category.
    pub open spec fn spec_exit_code(self) -> u32 {
        match self {
            AbortCode::UnhandledMethod => 22,
            AbortCode::PreconditionViolated => 20,
            AbortCode::MalformedRecord => 21,
            AbortCode::CorruptRoot => 20,
            AbortCode::HostFailure => 20,
        }
    }

    /// Numeric exit code handed to the host's halting primitive: the
    /// user-space codes for an unhandled message, an illegal state and a
    /// serialization failure.
    pub fn exit_code(&self) -> (r: u32)
        ensures
            r == self.spec_exit_code(),
    {
        match self {
            AbortCode::UnhandledMethod => 22,
            AbortCode::PreconditionViolated => 20,
            AbortCode::MalformedRecord => 21,
            AbortCode::CorruptRoot => 20,
            AbortCode::HostFailure => 20,
        }
    }
}

} // verus!
