//! The error taxonomy.
//!
//! Every failure is terminal and reported to the caller; nothing here is
//! retried or silently defaulted. Base64-level decode failures of a
//! signature are never surfaced raw: the unsigners collapse them into a
//! signature mismatch so that a forger learns nothing about which check
//! failed first.

use vstd::prelude::*;

use crate::base64::DecodeError;
use crate::separator::Separator;

verus! {

/// Why a payload string could not be decoded back to plain text.
#[derive(Debug)]
pub enum PayloadError {
    /// The value-serialization collaborator rejected the payload.
    Serialization,
    /// The base64 payload layer rejected the payload text.
    Base64(DecodeError),
    /// The decoded payload bytes are not valid UTF-8.
    Utf8Error,
}

/// The input lacked the expected separator character.
#[derive(Debug, Clone, Copy, PartialEq, Eq, Structural)]
pub struct SeparatorNotFound {
    pub separator: Separator,
}

/// Errors that can occur while unsigning a signed value.
#[derive(Debug)]
pub enum BadSignature {
    /// The input did not contain the expected separator.
    SeparatorNotFound { separator: Separator },
    /// The signature did not match what we expected it to be.
    SignatureMismatch { signature: String, value: String },
    /// The payload is invalid, e.g. it cannot be parsed.
    PayloadInvalid { value: String, error: PayloadError },
}

/// Errors that can occur while unsigning a signed value with the timed signer.
#[derive(Debug)]
pub enum BadTimedSignature {
    /// The input did not contain the expected separator.
    SeparatorNotFound { separator: Separator },
    /// The signature did not match what we expected it to be.
    SignatureMismatch { signature: String, value: String },
    /// The payload is invalid, e.g. it cannot be parsed.
    PayloadInvalid { value: String, error: PayloadError },
    /// The value was well signed, but carries no timestamp.
    TimestampMissing { value: String },
    /// The timestamp was present and signed, but cannot be parsed back
    /// to a point in time.
    TimestampInvalid { timestamp: String },
    /// The timestamp is more than `max_age` seconds in the past.
    TimestampExpired { timestamp: u64, max_age: u64, value: String },
}

/// The timestamp attached to a signed value is more than `max_age`
/// seconds in the past. Carries the recovered value for diagnostics.
#[derive(Debug)]
pub struct TimestampExpired<T> {
    pub timestamp: u64,
    pub max_age: u64,
    pub value: T,
}

/// The candidate separator character is in the base64 url-safe alphabet
/// and thus cannot be used.
#[derive(Debug, Clone, Copy, PartialEq, Eq, Structural)]
pub struct InvalidSeparator(pub char);

/// How a `BadSignature` reads as a `BadTimedSignature`: the untimed
/// variants map to their namesakes.
pub open spec fn spec_timed_of_bad_signature(e: BadSignature) -> BadTimedSignature {
    match e {
        BadSignature::SeparatorNotFound { separator } => BadTimedSignature::SeparatorNotFound {
            separator,
        },
        BadSignature::SignatureMismatch { signature, value } => {
            BadTimedSignature::SignatureMismatch { signature, value }
        },
        BadSignature::PayloadInvalid { value, error } => BadTimedSignature::PayloadInvalid {
            value,
            error,
        },
    }
}

impl BadSignature {
    /// A short statement of the failure.
    pub fn description(&self) -> (r: &'static str)
        ensures
            r@ == match self {
                BadSignature::SeparatorNotFound { .. } => "separator not found"@,
                BadSignature::SignatureMismatch { .. } => "signature does not match"@,
                BadSignature::PayloadInvalid { .. } => "payload invalid"@,
            },
    {
        match self {
            BadSignature::SeparatorNotFound { .. } => "separator not found",
            BadSignature::SignatureMismatch { .. } => "signature does not match",
            BadSignature::PayloadInvalid { .. } => "payload invalid",
        }
    }

    /// The same failure, reported by the timed unsigner.
    pub fn into_timed(self) -> (r: BadTimedSignature)
        ensures
            r == spec_timed_of_bad_signature(self),
    {
        match self {
            BadSignature::SeparatorNotFound { separator } => {
                BadTimedSignature::SeparatorNotFound { separator }
            },
            BadSignature::SignatureMismatch { signature, value } => {
                BadTimedSignature::SignatureMismatch { signature, value }
            },
            BadSignature::PayloadInvalid { value, error } => {
                BadTimedSignature::PayloadInvalid { value, error }
            },
        }
    }
}

impl BadTimedSignature {
    /// A short statement of the failure.
    pub fn description(&self) -> (r: &'static str)
        ensures
            r@ == match self {
                BadTimedSignature::SeparatorNotFound { .. } => "separator not found"@,
                BadTimedSignature::SignatureMismatch { .. } => "signature does not match"@,
                BadTimedSignature::PayloadInvalid { .. } => "payload invalid"@,
                BadTimedSignature::TimestampMissing { .. } => "timestamp missing"@,
                BadTimedSignature::TimestampInvalid { .. } => "timestamp invalid"@,
                BadTimedSignature::TimestampExpired { .. } => "timestamp expired"@,
            },
    {
        match self {
            BadTimedSignature::SeparatorNotFound { .. } => "separator not found",
            BadTimedSignature::SignatureMismatch { .. } => "signature does not match",
            BadTimedSignature::PayloadInvalid { .. } => "payload invalid",
            BadTimedSignature::TimestampMissing { .. } => "timestamp missing",
            BadTimedSignature::TimestampInvalid { .. } => "timestamp invalid",
            BadTimedSignature::TimestampExpired { .. } => "timestamp expired",
        }
    }
}

impl From<BadSignature> for BadTimedSignature {
    fn from(e: BadSignature) -> (r: BadTimedSignature) {
        e.into_timed()
    }
}

impl vstd::std_specs::convert::FromSpecImpl<BadSignature> for BadTimedSignature {
    open spec fn obeys_from_spec() -> bool {
        true
    }

    open spec fn from_spec(e: BadSignature) -> Self {
        spec_timed_of_bad_signature(e)
    }
}

impl<T> TimestampExpired<T> {
    /// A short statement of the failure.
    pub fn description(&self) -> (r: &'static str)
        ensures
            r@ == "timestamp expired"@,
    {
        "timestamp expired"
    }
}

impl From<DecodeError> for PayloadError {
    fn from(error: DecodeError) -> (r: PayloadError) {
        PayloadError::Base64(error)
    }
}

impl vstd::std_specs::convert::FromSpecImpl<DecodeError> for PayloadError {
    open spec fn obeys_from_spec() -> bool {
        true
    }

    open spec fn from_spec(error: DecodeError) -> Self {
        PayloadError::Base64(error)
    }
}

impl InvalidSeparator {
    /// A short statement of the failure.
    pub fn description(&self) -> (r: &'static str)
        ensures
            r@ == "invalid separator"@,
    {
        "invalid separator"
    }
}

impl SeparatorNotFound {
    /// A short statement of the failure.
    pub fn description(&self) -> (r: &'static str)
        ensures
            r@ == "separator not found"@,
    {
        "separator not found"
    }
}

} // verus!
