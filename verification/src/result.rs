//! Error taxonomy of the runtime.
//!
//! `CrowdError` covers the failures reported synchronously to a caller of
//! `plug`; `Error` additionally covers what a plugin effect can leave behind
//! in a scope's lifecycle: an application error or an unrecoverable fault.

use vstd::prelude::*;

verus! {

/// Errors returned synchronously when a plug request is rejected.
#[derive(Copy, Clone, PartialEq, Eq, Structural, Debug, Hash)]
pub enum CrowdError {
    /// An effect was requested against a scope that no longer accepts effects.
    InactiveScope,
    /// The supplied value does not satisfy the pluggable capability.
    InvalidPlug,
}

impl CrowdError {
    /// A human-readable description of the error.
    pub fn message(&self) -> (r: &'static str)
        ensures
            *self == CrowdError::InactiveScope ==> r@ == "cannot create effect in a inactive scope"@,
            *self == CrowdError::InvalidPlug ==> r@ == "expect a Pluggable"@,
    {
        match self {
            CrowdError::InactiveScope => "cannot create effect in a inactive scope",
            CrowdError::InvalidPlug => "expect a Pluggable",
        }
    }
}

/// Errors recorded on a scope's lifecycle by the effect-execution wrapper.
#[derive(Clone, Debug, PartialEq, Eq)]
pub enum Error {
    /// A synchronous plug failure, carried through.
    Crowd(CrowdError),
    /// The plugin's effect raised an unrecoverable fault instead of
    /// returning an error.
    PnpPanic(String),
    /// The plugin's effect returned an application error, rendered as text.
    Other(String),
}

impl Error {
    /// True when this error records an unrecoverable fault.
    pub fn is_panic(&self) -> (r: bool)
        ensures
            r == (self is PnpPanic),
    {
        match self {
            Error::PnpPanic(_) => true,
            _ => false,
        }
    }
}

} // verus!
