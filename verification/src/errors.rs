//! The typed failure modes of the engine.
//!
//! Normalization failures and invalid patterns are fatal to a whole
//! resolution; cache unavailability is recovered from by falling back to a
//! live fetch; an empty matched set is a distinguishable "no match" outcome.

use vstd::prelude::*;

verus! {

/// The fields a raw record must carry for normalization to accept it.
#[derive(Debug, Clone, Copy, PartialEq, Eq, Structural)]
pub enum RequiredField {
    InstanceId,
    StateName,
    LaunchTime,
    AvailabilityZone,
    ImageId,
}

/// Normalization failed: a required field was absent from the raw record.
#[derive(Debug, Clone, Copy, PartialEq, Eq, Structural)]
pub enum NormalizationError {
    MissingField(RequiredField),
}

/// The match pattern did not compile as a regular expression.
#[derive(Debug, Clone, Copy, PartialEq, Eq, Structural)]
pub enum MatcherError {
    InvalidPattern,
}

/// The cache could not serve an envelope.  Any read failure — file absent,
/// unreadable, undecodable, or the envelope no longer fresh — reads as
/// `Unavailable` and is treated as a miss; the reason is diagnostic only.
#[derive(Debug, PartialEq, Eq)]
pub enum CacheError {
    Unavailable(String),
    WriteFailed(String),
}

/// Selection from an empty matched set.
#[derive(Debug, Clone, Copy, PartialEq, Eq, Structural)]
pub enum SelectorError {
    EmptySet,
}

} // verus!
