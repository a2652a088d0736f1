//! The timestamp-aware signer.
//!
//! It wraps the plain signer and adds one more framing field: the token is
//! `value + sep + encoded_timestamp + sep + base64(signature)`, and the
//! signature covers value, separator and timestamp together, so a
//! timestamp cannot be moved onto another value's signature.

use vstd::prelude::*;
use vstd::string::{StrSliceExecFns, StringExecFns};
use vstd::utf8::encode_utf8;

use crate::algorithm::AlgorithmKind;
use crate::base64::{is_b64_char, lemma_encode_ok, spec_in_alphabet};
use crate::error::BadTimedSignature;
use crate::separator::{lemma_last_index_is, spec_last_index, Separator};
use crate::signer::{
    lemma_sign_unsign_round_trip, spec_sign, spec_unsign_ok, spec_unsign_value, SignerImpl,
};
use crate::text::push_char;
use crate::timestamp::{
    decode_timestamp, encode_timestamp, lemma_timestamp_round_trip, spec_decode_timestamp_ok,
    spec_decoded_timestamp, spec_encoded_timestamp, LEGACY_EPOCH,
};

verus! {

/// The payload a timed signature covers: the value, the separator, then
/// the encoded timestamp.
pub open spec fn spec_timed_payload(value: Seq<char>, sep: char, ts: u64) -> Seq<char> {
    value + seq![sep] + spec_encoded_timestamp(ts)
}

/// The timed token: the timed payload, signed like a plain value.
pub open spec fn spec_sign_timed(
    key: Seq<u8>,
    alg: AlgorithmKind,
    sep: char,
    value: Seq<char>,
    ts: u64,
) -> Seq<char> {
    spec_sign(key, alg, sep, spec_timed_payload(value, sep, ts))
}

/// Whether a timed token unsigns: the outer framing verifies, the payload
/// carries a timestamp field, and that field decodes.
pub open spec fn spec_timed_unsign_ok(
    key: Seq<u8>,
    alg: AlgorithmKind,
    sep: char,
    token: Seq<char>,
) -> bool {
    let payload = spec_unsign_value(token, sep);
    &&& spec_unsign_ok(key, alg, sep, token)
    &&& spec_last_index(payload, sep) >= 0
    &&& spec_decode_timestamp_ok(spec_timed_ts_chars(token, sep))
}

/// The value part of a timed token: the payload up to its last separator.
pub open spec fn spec_timed_value(token: Seq<char>, sep: char) -> Seq<char> {
    let payload = spec_unsign_value(token, sep);
    payload.subrange(0, spec_last_index(payload, sep))
}

/// The timestamp characters of a timed token: the payload after its last
/// separator.
pub open spec fn spec_timed_ts_chars(token: Seq<char>, sep: char) -> Seq<char> {
    let payload = spec_unsign_value(token, sep);
    payload.subrange(spec_last_index(payload, sep) + 1, payload.len() as int)
}

/// The permissive expiry policy: a timestamp in the future — clock skew
/// or a forward-dated token — counts as not expired.
pub open spec fn spec_not_expired(ts: u64, now: u64, max_age: u64) -> bool {
    now < ts || now - ts <= max_age
}

/// Relies on `std::time::SystemTime::now`: seconds since the Unix epoch,
/// or 0 for a clock set before it.
#[verifier::external_body]
pub(crate) fn clock_now() -> u64 {
    match std::time::SystemTime::now().duration_since(std::time::UNIX_EPOCH) {
        Ok(d) => d.as_secs(),
        Err(_) => 0,
    }
}

/// The timestamp signer that wraps the signer `default_builder` builds.
pub type DefaultTimestampSigner = TimestampSignerImpl;

/// A signer that stamps values with a point in time while signing, and
/// recovers and checks that timestamp while unsigning.
pub struct TimestampSignerImpl {
    signer: SignerImpl,
}

impl TimestampSignerImpl {
    /// The wrapped plain signer.
    pub closed spec fn spec_signer(&self) -> SignerImpl {
        self.signer
    }

    /// The separator character.
    pub open spec fn spec_sep_char(&self) -> char {
        self.spec_signer().spec_sep_char()
    }

    /// Well-formed exactly when the wrapped signer is.
    pub open spec fn wf(&self) -> bool {
        self.spec_signer().wf()
    }

    /// Wraps a plain signer; the derived key is reused, not re-derived.
    pub fn with_signer(signer: SignerImpl) -> (r: TimestampSignerImpl)
        ensures
            r.spec_signer() == signer,
    {
        TimestampSignerImpl { signer }
    }

    /// The separator this signer frames tokens with.
    pub fn separator(&self) -> (r: Separator)
        ensures
            r == self.spec_signer().spec_separator(),
    {
        self.signer.separator()
    }

    /// A reference to the wrapped plain signer.
    pub fn as_signer(&self) -> (r: &SignerImpl)
        ensures
            *r == self.spec_signer(),
    {
        &self.signer
    }

    /// Splits a verified payload into value and timestamp parts; a
    /// payload without a separator was well signed but carries no
    /// timestamp.
    pub(crate) fn split<'a>(&self, value: &'a str) -> (r: Result<
        (&'a str, &'a str),
        BadTimedSignature,
    >)
        ensures
            r is Ok <==> spec_last_index(value@, self.spec_sep_char()) >= 0,
            r matches Ok(pair) ==> {
                let i = spec_last_index(value@, self.spec_sep_char());
                &&& pair.0@ == value@.subrange(0, i)
                &&& pair.1@ == value@.subrange(i + 1, value@.len() as int)
            },
            r matches Err(e) ==> match e {
                BadTimedSignature::TimestampMissing { value: v } => v@ == value@,
                _ => false,
            },
    {
        match self.signer.separator().split(value) {
            Ok(pair) => Ok(pair),
            Err(_) => Err(BadTimedSignature::TimestampMissing { value: value.to_owned() }),
        }
    }

    /// Signs a value with an arbitrary timestamp (seconds since the Unix
    /// epoch, at or after the legacy epoch).
    pub fn sign_with_timestamp(&self, value: &str, timestamp: u64) -> (r: String)
        requires
            self.wf(),
            timestamp >= LEGACY_EPOCH,
        ensures
            r@ == spec_sign_timed(
                self.spec_signer().spec_key(),
                self.spec_signer().spec_algorithm(),
                self.spec_sep_char(),
                value@,
                timestamp,
            ),
    {
        let ts_str = encode_timestamp(timestamp);
        let mut payload = String::new();
        payload.append(value);
        push_char(&mut payload, self.signer.separator().as_char());
        payload.append(ts_str.as_str());
        proof {
            assert(payload@ =~= spec_timed_payload(value@, self.spec_sep_char(), timestamp));
        }
        self.signer.sign(payload.as_str())
    }

    /// Signs a value using the current system time. A clock reading
    /// before the legacy epoch is clamped up to it, so signing never
    /// fails however the clock is set.
    pub fn sign(&self, value: &str) -> (r: String)
        requires
            self.wf(),
        ensures
            exists|ts: u64|
                ts >= LEGACY_EPOCH && r@ == spec_sign_timed(
                    self.spec_signer().spec_key(),
                    self.spec_signer().spec_algorithm(),
                    self.spec_sep_char(),
                    value@,
                    ts,
                ),
    {
        let now = clock_now();
        let ts: u64 = if now < LEGACY_EPOCH {
            LEGACY_EPOCH
        } else {
            now
        };
        let r = self.sign_with_timestamp(value, ts);
        proof {
            assert(ts >= LEGACY_EPOCH && r@ == spec_sign_timed(
                self.spec_signer().spec_key(),
                self.spec_signer().spec_algorithm(),
                self.spec_sep_char(),
                value@,
                ts,
            ));
        }
        r
    }

    /// The inverse of signing with a timestamp: verifies the outer
    /// framing through the wrapped signer, splits the recovered payload
    /// into value and timestamp, and decodes the timestamp.
    ///
    /// The value inside the result is a borrowed slice of the input.
    pub fn unsign<'a>(&self, value: &'a str) -> (r: Result<UnsignedValue<'a>, BadTimedSignature>)
        requires
            self.wf(),
        ensures
            r is Ok <==> spec_timed_unsign_ok(
                self.spec_signer().spec_key(),
                self.spec_signer().spec_algorithm(),
                self.spec_sep_char(),
                value@,
            ),
            r matches Ok(u) ==> u.spec_value() == spec_timed_value(value@, self.spec_sep_char())
                && u.spec_timestamp() == spec_decoded_timestamp(
                spec_timed_ts_chars(value@, self.spec_sep_char()),
            ),
            r matches Err(e) ==> match e {
                BadTimedSignature::SeparatorNotFound { separator } => {
                    &&& separator == self.spec_signer().spec_separator()
                    &&& spec_last_index(value@, self.spec_sep_char()) < 0
                },
                BadTimedSignature::SignatureMismatch { signature, value: v } => {
                    let i = spec_last_index(value@, self.spec_sep_char());
                    &&& i >= 0
                    &&& !spec_unsign_ok(
                        self.spec_signer().spec_key(),
                        self.spec_signer().spec_algorithm(),
                        self.spec_sep_char(),
                        value@,
                    )
                    &&& v@ == value@.subrange(0, i)
                    &&& signature@ == value@.subrange(i + 1, value@.len() as int)
                },
                BadTimedSignature::TimestampMissing { value: v } => {
                    &&& spec_unsign_ok(
                        self.spec_signer().spec_key(),
                        self.spec_signer().spec_algorithm(),
                        self.spec_sep_char(),
                        value@,
                    )
                    &&& spec_last_index(
                        spec_unsign_value(value@, self.spec_sep_char()),
                        self.spec_sep_char(),
                    ) < 0
                    &&& v@ == spec_unsign_value(value@, self.spec_sep_char())
                },
                BadTimedSignature::TimestampInvalid { timestamp } => {
                    &&& spec_unsign_ok(
                        self.spec_signer().spec_key(),
                        self.spec_signer().spec_algorithm(),
                        self.spec_sep_char(),
                        value@,
                    )
                    &&& spec_last_index(
                        spec_unsign_value(value@, self.spec_sep_char()),
                        self.spec_sep_char(),
                    ) >= 0
                    &&& !spec_decode_timestamp_ok(
                        spec_timed_ts_chars(value@, self.spec_sep_char()),
                    )
                    &&& timestamp@ == spec_timed_ts_chars(value@, self.spec_sep_char())
                },
                _ => false,
            },
    {
        let payload = match self.signer.unsign(value) {
            Ok(p) => p,
            Err(e) => {
                return Err(e.into_timed());
            },
        };
        let (val, ts_str) = match self.split(payload) {
            Ok(pair) => pair,
            Err(e) => {
                return Err(e);
            },
        };
        let timestamp = match decode_timestamp(ts_str) {
            Some(t) => t,
            Option::None => {
                return Err(BadTimedSignature::TimestampInvalid { timestamp: ts_str.to_owned() });
            },
        };
        Ok(UnsignedValue { value: val, timestamp })
    }
}

/// A value and timestamp recovered by a successful timed unsign. Only
/// constructible on the success path, after signature verification.
#[derive(Debug)]
pub struct UnsignedValue<'a> {
    value: &'a str,
    timestamp: u64,
}

impl<'a> UnsignedValue<'a> {
    /// The recovered value.
    pub closed spec fn spec_value(&self) -> Seq<char> {
        self.value@
    }

    /// The recovered timestamp.
    pub closed spec fn spec_timestamp(&self) -> u64 {
        self.timestamp
    }

    /// The value that was signed; safe to use, since the signature over
    /// it has been verified.
    pub fn value(&self) -> (r: &'a str)
        ensures
            r@ == self.spec_value(),
    {
        self.value
    }

    /// The timestamp the value was signed with, in seconds since the
    /// Unix epoch.
    pub fn timestamp(&self) -> (r: u64)
        ensures
            r == self.spec_timestamp(),
    {
        self.timestamp
    }

    /// The expiry decision against an explicit clock reading `now`:
    /// the value comes back exactly when the timestamp is in the future
    /// or at most `max_age` seconds old; otherwise the token has expired.
    pub fn value_if_not_expired_at(self, now: u64, max_age: u64) -> (r: Result<
        &'a str,
        BadTimedSignature,
    >)
        ensures
            r is Ok <==> spec_not_expired(self.spec_timestamp(), now, max_age),
            r matches Ok(v) ==> v@ == self.spec_value(),
            r matches Err(e) ==> match e {
                BadTimedSignature::TimestampExpired { timestamp, max_age: m, value } => {
                    &&& timestamp == self.spec_timestamp()
                    &&& m == max_age
                    &&& value@ == self.spec_value()
                },
                _ => false,
            },
    {
        if now >= self.timestamp && now - self.timestamp > max_age {
            Err(
                BadTimedSignature::TimestampExpired {
                    timestamp: self.timestamp,
                    max_age,
                    value: self.value.to_owned(),
                },
            )
        } else {
            Ok(self.value)
        }
    }

    /// Returns the value if the timestamp is no more than `max_age`
    /// seconds before the current system time; a timestamp in the future
    /// is considered valid.
    pub fn value_if_not_expired(self, max_age: u64) -> (r: Result<&'a str, BadTimedSignature>)
        ensures
            r matches Ok(v) ==> v@ == self.spec_value(),
            r matches Err(e) ==> match e {
                BadTimedSignature::TimestampExpired { timestamp, max_age: m, value } => {
                    &&& timestamp == self.spec_timestamp()
                    &&& m == max_age
                    &&& value@ == self.spec_value()
                },
                _ => false,
            },
    {
        let now = clock_now();
        self.value_if_not_expired_at(now, max_age)
    }
}

/// Signing a value with a timestamp and unsigning the token recovers
/// both the value and the timestamp, exactly.
pub proof fn lemma_timed_round_trip(
    key: Seq<u8>,
    alg: AlgorithmKind,
    sep: char,
    value: Seq<char>,
    ts: u64,
)
    requires
        !spec_in_alphabet(sep),
        ts >= LEGACY_EPOCH,
    ensures
        spec_timed_unsign_ok(key, alg, sep, spec_sign_timed(key, alg, sep, value, ts)),
        spec_timed_value(spec_sign_timed(key, alg, sep, value, ts), sep) == value,
        spec_decoded_timestamp(spec_timed_ts_chars(spec_sign_timed(key, alg, sep, value, ts), sep))
            == ts,
{
    let payload = spec_timed_payload(value, sep, ts);
    let token = spec_sign_timed(key, alg, sep, value, ts);
    let ts_chars = spec_encoded_timestamp(ts);
    lemma_sign_unsign_round_trip(key, alg, sep, payload);
    assert(spec_unsign_value(token, sep) == payload);
    lemma_timestamp_round_trip(ts);
    // the timestamp characters are base64 characters, never the separator
    lemma_encode_ok(
        crate::timestamp::spec_strip_zeros(
            crate::timestamp::spec_be_bytes((ts - LEGACY_EPOCH) as u64),
        ),
    );
    assert(payload[value.len() as int] == sep);
    assert forall|j: int| value.len() < j < payload.len() implies payload[j] != sep by {
        assert(payload[j] == ts_chars[j - value.len() - 1]);
        assert(is_b64_char(ts_chars[j - value.len() - 1]));
    }
    lemma_last_index_is(payload, sep, value.len() as int);
    assert(payload.subrange(0, value.len() as int) =~= value);
    assert(payload.subrange(value.len() as int + 1, payload.len() as int) =~= ts_chars);
}

} // verus!
