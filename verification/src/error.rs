use vstd::prelude::*;

verus! {

/// The one error taxonomy of the runtime: structural bridge errors,
/// lifecycle precondition errors, and decode diagnostics.
#[derive(Debug, Clone, PartialEq, Eq)]
pub enum WalleError {
    /// A required key was absent from a value map.
    MapMissedKey(String),
    /// A value was present but had the wrong shape: expected shape, actual description.
    ValueTypeNotMatch(String, String),
    /// An enum tag matched no generated variant; carries the offending tag.
    UnsupportedTag(String),
    /// `start` was called while the runtime was already running.
    AlreadyStarted,
    /// `shutdown` or a subscription was requested while the runtime was stopped.
    NotStarted,
    /// A wire document could not be decoded; carries a diagnostic.
    Decode(String),
}

pub type WalleResult<T> = Result<T, WalleError>;

} // verus!
