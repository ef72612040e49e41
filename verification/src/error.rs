//! The errors this crate reports.

use crate::value::Value;
use vstd::prelude::*;

verus! {

/// What can go wrong while building or merging configuration.
#[derive(Debug)]
pub enum EkkeCfgError {
    /// Reserved for an explicit attempt to null out a previously set value.
    /// Merge itself never unsets: a `Null` on the right-hand side is a no-op.
    UnsetConfig,
    /// The root document is malformed structurally: a missing or mistyped
    /// `default` entry, a mistyped `userset` entry, or a layer whose top
    /// level is not a mapping.
    ConfigParse,
    /// Merge found two values of different variant tags at the same path.
    /// Carries snapshots of both operands for diagnostics: first the value
    /// that was already there, then the incoming one.
    MergeWrongType(Value, Value),
}

/// Result type used throughout this crate.
pub type EkkeResult<T> = Result<T, EkkeCfgError>;

} // verus!
