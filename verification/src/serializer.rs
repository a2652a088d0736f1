//! Serializers: signers composed with a payload text transform.
//!
//! The value-serialization collaborator (which turns structured data into
//! a string and back) stays outside this crate; the serializers here sign
//! and unsign the payload *string* it produces, optionally passing it
//! through an extra text transform — plain passthrough, or a base64 layer
//! for payload obfuscation.

use vstd::prelude::*;
use vstd::string::{StrSliceExecFns, StringExecFns};
use vstd::utf8::{
    decode_utf8, encode_utf8, encode_utf8_decode_utf8, encode_utf8_valid_utf8, valid_utf8,
};

use crate::algorithm::AlgorithmKind;
use crate::base64::{
    b64_decode, b64_encode, b64_valid, decode, encode, lemma_decode_ok, lemma_encode_ok,
    DecodeError,
};
use crate::error::{BadSignature, BadTimedSignature, PayloadError, TimestampExpired};
use crate::separator::{spec_last_index, Separator};
use crate::signer::{spec_signature_chars, spec_unsign_ok, spec_unsign_value, SignerImpl};
use crate::text::string_from_utf8;
use crate::timed::{
    spec_not_expired, spec_timed_ts_chars, spec_timed_unsign_ok, spec_timed_value,
    TimestampSignerImpl,
};
use crate::timestamp::{
    decode_timestamp, spec_decode_timestamp_ok, spec_decoded_timestamp, LEGACY_EPOCH,
};

verus! {

/// The closed set of payload text transforms.
#[derive(Debug, Clone, Copy, PartialEq, Eq, Structural)]
pub enum EncodingKind {
    /// Pass the payload through unchanged.
    Plain,
    /// Render the payload's UTF-8 bytes as unpadded URL-safe base64.
    UrlSafe,
}

/// What a transform does to a payload string.
pub open spec fn spec_encode_payload(k: EncodingKind, s: Seq<char>) -> Seq<char> {
    match k {
        EncodingKind::Plain => s,
        EncodingKind::UrlSafe => b64_encode(encode_utf8(s)),
    }
}

/// Whether an encoded payload can be decoded back.
pub open spec fn spec_decode_payload_ok(k: EncodingKind, s: Seq<char>) -> bool {
    match k {
        EncodingKind::Plain => true,
        EncodingKind::UrlSafe => b64_valid(s) && valid_utf8(b64_decode(s)),
    }
}

/// The payload string an encoded payload decodes to.
pub open spec fn spec_decode_payload(k: EncodingKind, s: Seq<char>) -> Seq<char> {
    match k {
        EncodingKind::Plain => s,
        EncodingKind::UrlSafe => decode_utf8(b64_decode(s)),
    }
}

/// A payload text transform, chosen from the closed set.
pub trait Encoding: Sized {
    /// Which transform this is.
    spec fn spec_kind(&self) -> EncodingKind;

    /// Which transform this is.
    fn kind(&self) -> (k: EncodingKind)
        ensures
            k == self.spec_kind(),
    ;
}

/// Applies a transform to a payload string.
pub fn encode_payload(k: EncodingKind, serialized_input: String) -> (r: String)
    ensures
        r@ == spec_encode_payload(k, serialized_input@),
{
    match k {
        EncodingKind::Plain => serialized_input,
        EncodingKind::UrlSafe => encode(serialized_input.as_str().as_bytes()),
    }
}

/// Undoes a transform, reporting exactly why the payload text cannot be
/// decoded: a base64 error, or decoded bytes that are not UTF-8.
pub fn decode_payload(k: EncodingKind, encoded_input: String) -> (r: Result<String, PayloadError>)
    ensures
        r is Ok <==> spec_decode_payload_ok(k, encoded_input@),
        r matches Ok(t) ==> t@ == spec_decode_payload(k, encoded_input@),
        r matches Err(e) ==> match e {
            PayloadError::Base64(_) => !b64_valid(encoded_input@),
            PayloadError::Utf8Error => b64_valid(encoded_input@) && !valid_utf8(
                b64_decode(encoded_input@),
            ),
            PayloadError::Serialization => false,
        },
{
    match k {
        EncodingKind::Plain => Ok(encoded_input),
        EncodingKind::UrlSafe => {
            let bytes = match decode(encoded_input.as_str()) {
                Ok(b) => b,
                Err(e) => {
                    return Err(PayloadError::Base64(e));
                },
            };
            match string_from_utf8(bytes) {
                Some(t) => {
                    proof {
                        encode_utf8_decode_utf8(t@);
                    }
                    Ok(t)
                },
                Option::None => Err(PayloadError::Utf8Error),
            }
        },
    }
}

/// The passthrough transform.
pub struct NullEncoding;

/// The base64 transform.
pub struct URLSafeEncoding;

impl Encoding for NullEncoding {
    open spec fn spec_kind(&self) -> EncodingKind {
        EncodingKind::Plain
    }

    fn kind(&self) -> (k: EncodingKind)
        ensures
            k == self.spec_kind(),
    {
        EncodingKind::Plain
    }
}

impl Encoding for URLSafeEncoding {
    open spec fn spec_kind(&self) -> EncodingKind {
        EncodingKind::UrlSafe
    }

    fn kind(&self) -> (k: EncodingKind)
        ensures
            k == self.spec_kind(),
    {
        EncodingKind::UrlSafe
    }
}

impl NullEncoding {
    /// Passes the payload through unchanged.
    pub fn encode(&self, serialized_input: String) -> (r: String)
        ensures
            r@ == serialized_input@,
    {
        serialized_input
    }

    /// Passes the payload through unchanged; never fails.
    pub fn decode(&self, encoded_input: String) -> (r: Result<String, PayloadError>)
        ensures
            r matches Ok(t) && t@ == encoded_input@,
    {
        Ok(encoded_input)
    }
}

impl URLSafeEncoding {
    /// Renders the payload's UTF-8 bytes as unpadded URL-safe base64.
    pub fn encode(&self, serialized_input: String) -> (r: String)
        ensures
            r@ == b64_encode(encode_utf8(serialized_input@)),
    {
        encode_payload(EncodingKind::UrlSafe, serialized_input)
    }

    /// Decodes base64 payload text back to the payload string.
    pub fn decode(&self, encoded_input: String) -> (r: Result<String, PayloadError>)
        ensures
            r is Ok <==> spec_decode_payload_ok(EncodingKind::UrlSafe, encoded_input@),
            r matches Ok(t) ==> t@ == decode_utf8(b64_decode(encoded_input@)),
    {
        decode_payload(EncodingKind::UrlSafe, encoded_input)
    }
}

/// Decoding inverts encoding for every payload string and every
/// transform in the closed set.
pub proof fn lemma_payload_round_trip(k: EncodingKind, s: Seq<char>)
    ensures
        spec_decode_payload_ok(k, spec_encode_payload(k, s)),
        spec_decode_payload(k, spec_encode_payload(k, s)) == s,
{
    match k {
        EncodingKind::Plain => {},
        EncodingKind::UrlSafe => {
            lemma_encode_ok(encode_utf8(s));
            encode_utf8_valid_utf8(s);
            encode_utf8_decode_utf8(s);
        },
    }
}

/// A signer paired with a payload transform: values are transformed,
/// then signed; tokens are verified, then decoded back.
pub struct SerializerImpl {
    signer: SignerImpl,
    encoding: EncodingKind,
}

/// Builds a serializer from a signer and a transform.
pub fn serializer_with_signer<E: Encoding>(signer: SignerImpl, encoding: E) -> (r: SerializerImpl)
    ensures
        r.spec_signer() == signer,
        r.spec_encoding() == encoding.spec_kind(),
{
    SerializerImpl { signer, encoding: encoding.kind() }
}

impl SerializerImpl {
    /// The signer.
    pub closed spec fn spec_signer(&self) -> SignerImpl {
        self.signer
    }

    /// The payload transform.
    pub closed spec fn spec_encoding(&self) -> EncodingKind {
        self.encoding
    }

    /// Well-formed exactly when the signer is.
    pub open spec fn wf(&self) -> bool {
        self.spec_signer().wf()
    }

    /// Whether this serializer accepts the token: the signature verifies
    /// and the recovered payload text decodes.
    pub open spec fn spec_unsign_ok_of(&self, token: Seq<char>) -> bool {
        &&& spec_unsign_ok(
            self.spec_signer().spec_key(),
            self.spec_signer().spec_algorithm(),
            self.spec_signer().spec_sep_char(),
            token,
        )
        &&& spec_decode_payload_ok(
            self.spec_encoding(),
            spec_unsign_value(token, self.spec_signer().spec_sep_char()),
        )
    }

    /// The payload string this serializer recovers from the token.
    pub open spec fn spec_unsign_value_of(&self, token: Seq<char>) -> Seq<char> {
        spec_decode_payload(
            self.spec_encoding(),
            spec_unsign_value(token, self.spec_signer().spec_sep_char()),
        )
    }

    /// Transforms and signs a payload string.
    pub fn sign(&self, value: &str) -> (r: String)
        requires
            self.wf(),
        ensures
            r@ == crate::signer::spec_sign(
                self.spec_signer().spec_key(),
                self.spec_signer().spec_algorithm(),
                self.spec_signer().spec_sep_char(),
                spec_encode_payload(self.spec_encoding(), value@),
            ),
    {
        let encoded = encode_payload(self.encoding, value.to_owned());
        self.signer.sign(encoded.as_str())
    }

    /// Verifies a token and decodes the recovered payload text back to
    /// the payload string.
    pub fn unsign<'a>(&self, value: &'a str) -> (r: Result<String, BadSignature>)
        requires
            self.wf(),
        ensures
            r is Ok <==> self.spec_unsign_ok_of(value@),
            r matches Ok(v) ==> v@ == self.spec_unsign_value_of(value@),
            r matches Err(e) ==> match e {
                BadSignature::SeparatorNotFound { separator } => {
                    &&& separator == self.spec_signer().spec_separator()
                    &&& spec_last_index(value@, self.spec_signer().spec_sep_char()) < 0
                },
                BadSignature::SignatureMismatch { signature, value: v } => {
                    let i = spec_last_index(value@, self.spec_signer().spec_sep_char());
                    &&& i >= 0
                    &&& !spec_unsign_ok(
                        self.spec_signer().spec_key(),
                        self.spec_signer().spec_algorithm(),
                        self.spec_signer().spec_sep_char(),
                        value@,
                    )
                    &&& v@ == value@.subrange(0, i)
                    &&& signature@ == value@.subrange(i + 1, value@.len() as int)
                },
                BadSignature::PayloadInvalid { value: v, error } => {
                    &&& spec_unsign_ok(
                        self.spec_signer().spec_key(),
                        self.spec_signer().spec_algorithm(),
                        self.spec_signer().spec_sep_char(),
                        value@,
                    )
                    &&& !spec_decode_payload_ok(
                        self.spec_encoding(),
                        spec_unsign_value(value@, self.spec_signer().spec_sep_char()),
                    )
                    &&& v@ == spec_unsign_value(value@, self.spec_signer().spec_sep_char())
                },
            },
    {
        let payload = match self.signer.unsign(value) {
            Ok(p) => p,
            Err(e) => {
                return Err(e);
            },
        };
        match decode_payload(self.encoding, payload.to_owned()) {
            Ok(decoded) => Ok(decoded),
            Err(error) => Err(
                BadSignature::PayloadInvalid { value: payload.to_owned(), error },
            ),
        }
    }

    /// Verifies a token and returns the decoded payload as a string;
    /// the form of unsigning that needs no knowledge of the value's
    /// structure, used by fallback chains.
    pub fn unsign_to_string<'a>(&self, value: &'a str) -> (r: Result<String, BadSignature>)
        requires
            self.wf(),
        ensures
            r is Ok <==> self.spec_unsign_ok_of(value@),
            r matches Ok(v) ==> v@ == self.spec_unsign_value_of(value@),
            r matches Err(e) ==> match e {
                BadSignature::SeparatorNotFound { separator } => {
                    &&& separator == self.spec_signer().spec_separator()
                    &&& spec_last_index(value@, self.spec_signer().spec_sep_char()) < 0
                },
                BadSignature::SignatureMismatch { signature, value: v } => {
                    let i = spec_last_index(value@, self.spec_signer().spec_sep_char());
                    &&& i >= 0
                    &&& !spec_unsign_ok(
                        self.spec_signer().spec_key(),
                        self.spec_signer().spec_algorithm(),
                        self.spec_signer().spec_sep_char(),
                        value@,
                    )
                    &&& v@ == value@.subrange(0, i)
                    &&& signature@ == value@.subrange(i + 1, value@.len() as int)
                },
                BadSignature::PayloadInvalid { value: v, error } => {
                    &&& spec_unsign_ok(
                        self.spec_signer().spec_key(),
                        self.spec_signer().spec_algorithm(),
                        self.spec_signer().spec_sep_char(),
                        value@,
                    )
                    &&& !spec_decode_payload_ok(
                        self.spec_encoding(),
                        spec_unsign_value(value@, self.spec_signer().spec_sep_char()),
                    )
                    &&& v@ == spec_unsign_value(value@, self.spec_signer().spec_sep_char())
                },
            },
    {
        self.unsign(value)
    }

    /// The signer inside this serializer.
    pub fn as_signer(&self) -> (r: &SignerImpl)
        ensures
            *r == self.spec_signer(),
    {
        &self.signer
    }
}

/// A timestamp signer paired with a payload transform.
pub struct TimedSerializerImpl {
    signer: TimestampSignerImpl,
    encoding: EncodingKind,
}

/// Builds a timed serializer from a timestamp signer and a transform.
pub fn timed_serializer_with_signer<E: Encoding>(signer: TimestampSignerImpl, encoding: E) -> (r:
    TimedSerializerImpl)
    ensures
        r.spec_signer() == signer,
        r.spec_encoding() == encoding.spec_kind(),
{
    TimedSerializerImpl { signer, encoding: encoding.kind() }
}

impl TimedSerializerImpl {
    /// The timestamp signer.
    pub closed spec fn spec_signer(&self) -> TimestampSignerImpl {
        self.signer
    }

    /// The payload transform.
    pub closed spec fn spec_encoding(&self) -> EncodingKind {
        self.encoding
    }

    /// Well-formed exactly when the signer is.
    pub open spec fn wf(&self) -> bool {
        self.spec_signer().wf()
    }

    /// Transforms a payload string and signs it with a timestamp.
    pub fn sign_with_timestamp(&self, value: &str, timestamp: u64) -> (r: String)
        requires
            self.wf(),
            timestamp >= LEGACY_EPOCH,
        ensures
            r@ == crate::timed::spec_sign_timed(
                self.spec_signer().spec_signer().spec_key(),
                self.spec_signer().spec_signer().spec_algorithm(),
                self.spec_signer().spec_sep_char(),
                spec_encode_payload(self.spec_encoding(), value@),
                timestamp,
            ),
    {
        let encoded = encode_payload(self.encoding, value.to_owned());
        self.signer.sign_with_timestamp(encoded.as_str(), timestamp)
    }

    /// Transforms a payload string and signs it with the current time.
    pub fn sign(&self, value: &str) -> (r: String)
        requires
            self.wf(),
        ensures
            exists|ts: u64|
                ts >= LEGACY_EPOCH && r@ == crate::timed::spec_sign_timed(
                    self.spec_signer().spec_signer().spec_key(),
                    self.spec_signer().spec_signer().spec_algorithm(),
                    self.spec_signer().spec_sep_char(),
                    spec_encode_payload(self.spec_encoding(), value@),
                    ts,
                ),
    {
        let encoded = encode_payload(self.encoding, value.to_owned());
        self.signer.sign(encoded.as_str())
    }

    /// Verifies a timed token, decodes the recovered payload text, and
    /// returns the payload string together with its signed timestamp.
    pub fn unsign<'a>(&self, value: &'a str) -> (r: Result<
        UnsignedTimedSerializerValue<String>,
        BadTimedSignature,
    >)
        requires
            self.wf(),
        ensures
            r is Ok <==> spec_timed_unsign_ok(
                self.spec_signer().spec_signer().spec_key(),
                self.spec_signer().spec_signer().spec_algorithm(),
                self.spec_signer().spec_sep_char(),
                value@,
            ) && spec_decode_payload_ok(
                self.spec_encoding(),
                spec_timed_value(value@, self.spec_signer().spec_sep_char()),
            ),
            r matches Ok(u) ==> u.spec_value()@ == spec_decode_payload(
                self.spec_encoding(),
                spec_timed_value(value@, self.spec_signer().spec_sep_char()),
            ) && u.spec_timestamp() == spec_decoded_timestamp(
                spec_timed_ts_chars(value@, self.spec_signer().spec_sep_char()),
            ),
            r matches Err(e) ==> match e {
                BadTimedSignature::SeparatorNotFound { separator } => {
                    &&& separator == self.spec_signer().spec_signer().spec_separator()
                    &&& spec_last_index(value@, self.spec_signer().spec_sep_char()) < 0
                },
                BadTimedSignature::SignatureMismatch { signature, value: v } => {
                    let i = spec_last_index(value@, self.spec_signer().spec_sep_char());
                    &&& i >= 0
                    &&& !spec_unsign_ok(
                        self.spec_signer().spec_signer().spec_key(),
                        self.spec_signer().spec_signer().spec_algorithm(),
                        self.spec_signer().spec_sep_char(),
                        value@,
                    )
                    &&& v@ == value@.subrange(0, i)
                    &&& signature@ == value@.subrange(i + 1, value@.len() as int)
                },
                BadTimedSignature::TimestampMissing { value: v } => {
                    &&& spec_unsign_ok(
                        self.spec_signer().spec_signer().spec_key(),
                        self.spec_signer().spec_signer().spec_algorithm(),
                        self.spec_signer().spec_sep_char(),
                        value@,
                    )
                    &&& spec_last_index(
                        spec_unsign_value(value@, self.spec_signer().spec_sep_char()),
                        self.spec_signer().spec_sep_char(),
                    ) < 0
                    &&& v@ == spec_unsign_value(value@, self.spec_signer().spec_sep_char())
                },
                BadTimedSignature::TimestampInvalid { timestamp } => {
                    &&& spec_unsign_ok(
                        self.spec_signer().spec_signer().spec_key(),
                        self.spec_signer().spec_signer().spec_algorithm(),
                        self.spec_signer().spec_sep_char(),
                        value@,
                    )
                    &&& spec_last_index(
                        spec_unsign_value(value@, self.spec_signer().spec_sep_char()),
                        self.spec_signer().spec_sep_char(),
                    ) >= 0
                    &&& !spec_decode_timestamp_ok(
                        spec_timed_ts_chars(value@, self.spec_signer().spec_sep_char()),
                    )
                    &&& timestamp@ == spec_timed_ts_chars(
                        value@,
                        self.spec_signer().spec_sep_char(),
                    )
                },
                BadTimedSignature::PayloadInvalid { value: v, error } => {
                    &&& spec_timed_unsign_ok(
                        self.spec_signer().spec_signer().spec_key(),
                        self.spec_signer().spec_signer().spec_algorithm(),
                        self.spec_signer().spec_sep_char(),
                        value@,
                    )
                    &&& !spec_decode_payload_ok(
                        self.spec_encoding(),
                        spec_timed_value(value@, self.spec_signer().spec_sep_char()),
                    )
                    &&& v@ == spec_timed_value(value@, self.spec_signer().spec_sep_char())
                },
                BadTimedSignature::TimestampExpired { .. } => false,
            },
    {
        let unsigned = match self.signer.unsign(value) {
            Ok(u) => u,
            Err(e) => {
                return Err(e);
            },
        };
        let timestamp = unsigned.timestamp();
        let raw = unsigned.value();
        match decode_payload(self.encoding, raw.to_owned()) {
            Ok(decoded) => Ok(UnsignedTimedSerializerValue { value: decoded, timestamp }),
            Err(error) => Err(
                BadTimedSignature::PayloadInvalid { value: raw.to_owned(), error },
            ),
        }
    }
}

/// A payload value and timestamp recovered by a successful timed unsign.
#[derive(Debug)]
pub struct UnsignedTimedSerializerValue<T> {
    value: T,
    timestamp: u64,
}

impl<T> UnsignedTimedSerializerValue<T> {
    /// The recovered value.
    pub closed spec fn spec_value(&self) -> T {
        self.value
    }

    /// The recovered timestamp.
    pub closed spec fn spec_timestamp(&self) -> u64 {
        self.timestamp
    }

    /// The value that was signed; safe to use, since it was recovered
    /// from a verified token.
    pub fn value(self) -> (r: T)
        ensures
            r == self.spec_value(),
    {
        self.value
    }

    /// The timestamp the value was signed with, in seconds since the
    /// Unix epoch.
    pub fn timestamp(&self) -> (r: u64)
        ensures
            r == self.spec_timestamp(),
    {
        self.timestamp
    }

    /// The expiry decision against an explicit clock reading `now`: the
    /// value comes back exactly when the timestamp is in the future or
    /// at most `max_age` seconds old.
    pub fn value_if_not_expired_at(self, now: u64, max_age: u64) -> (r: Result<
        T,
        TimestampExpired<T>,
    >)
        ensures
            r is Ok <==> spec_not_expired(self.spec_timestamp(), now, max_age),
            r matches Ok(v) ==> v == self.spec_value(),
            r matches Err(e) ==> e.timestamp == self.spec_timestamp() && e.max_age == max_age
                && e.value == self.spec_value(),
    {
        if now >= self.timestamp && now - self.timestamp > max_age {
            Err(TimestampExpired { timestamp: self.timestamp, max_age, value: self.value })
        } else {
            Ok(self.value)
        }
    }

    /// Returns the value if the timestamp is no more than `max_age`
    /// seconds before the current system time; a timestamp in the
    /// future is considered valid.
    pub fn value_if_not_expired(self, max_age: u64) -> (r: Result<T, TimestampExpired<T>>)
        ensures
            r matches Ok(v) ==> v == self.spec_value(),
            r matches Err(e) ==> e.timestamp == self.spec_timestamp() && e.max_age == max_age
                && e.value == self.spec_value(),
    {
        let now = crate::timed::clock_now();
        self.value_if_not_expired_at(now, max_age)
    }
}

/// A deserialized-but-unverified token: split and decoded without
/// checking the signature, so that data inside can be used to look up
/// the right signing key before verification.
#[derive(Debug)]
pub struct UnverifiedValue<'a> {
    unverified_value: String,
    unverified_raw_value: &'a str,
    unverified_signature: &'a str,
}

impl<'a> UnverifiedValue<'a> {
    /// The decoded payload string, not yet verified.
    pub closed spec fn spec_unverified_value(&self) -> Seq<char> {
        self.unverified_value@
    }

    /// The raw (still transformed) payload part of the token.
    pub closed spec fn spec_raw_value(&self) -> Seq<char> {
        self.unverified_raw_value@
    }

    /// The signature part of the token.
    pub closed spec fn spec_signature(&self) -> Seq<char> {
        self.unverified_signature@
    }

    /// Splits a token on the separator and decodes the payload part,
    /// without verifying anything.
    pub fn from_str<E: Encoding>(separator: Separator, encoding: E, input: &'a str) -> (r: Result<
        UnverifiedValue<'a>,
        BadSignature,
    >)
        ensures
            r is Ok <==> spec_last_index(input@, separator.spec_char()) >= 0
                && spec_decode_payload_ok(
                encoding.spec_kind(),
                spec_unsign_value(input@, separator.spec_char()),
            ),
            r matches Ok(u) ==> {
                let i = spec_last_index(input@, separator.spec_char());
                &&& u.spec_raw_value() == input@.subrange(0, i)
                &&& u.spec_signature() == input@.subrange(i + 1, input@.len() as int)
                &&& u.spec_unverified_value() == spec_decode_payload(
                    encoding.spec_kind(),
                    input@.subrange(0, i),
                )
            },
            r matches Err(e) ==> match e {
                BadSignature::SeparatorNotFound { separator: found } => {
                    &&& found == separator
                    &&& spec_last_index(input@, separator.spec_char()) < 0
                },
                BadSignature::PayloadInvalid { value: v, error } => {
                    let i = spec_last_index(input@, separator.spec_char());
                    let raw = input@.subrange(0, i);
                    &&& i >= 0
                    &&& !spec_decode_payload_ok(encoding.spec_kind(), raw)
                    &&& v@ == raw
                    &&& match error {
                        PayloadError::Base64(_) => !b64_valid(raw),
                        PayloadError::Utf8Error => b64_valid(raw) && !valid_utf8(b64_decode(raw)),
                        PayloadError::Serialization => false,
                    }
                },
                BadSignature::SignatureMismatch { .. } => false,
            },
    {
        let (unverified_raw_value, unverified_signature) = match separator.split(input) {
            Ok(pair) => pair,
            Err(e) => {
                return Err(BadSignature::SeparatorNotFound { separator: e.separator });
            },
        };
        let unverified_value = match decode_payload(
            encoding.kind(),
            unverified_raw_value.to_owned(),
        ) {
            Ok(v) => v,
            Err(error) => {
                return Err(
                    BadSignature::PayloadInvalid { value: unverified_raw_value.to_owned(), error },
                );
            },
        };
        Ok(UnverifiedValue { unverified_value, unverified_raw_value, unverified_signature })
    }

    /// The decoded payload, before any verification. Handle with care.
    pub fn unverified_value(&self) -> (r: &String)
        ensures
            r@ == self.spec_unverified_value(),
    {
        &self.unverified_value
    }

    /// Verifies the signature against a signer and, on success, hands
    /// out the decoded payload.
    pub fn verify(self, signer: &SignerImpl) -> (r: Result<String, BadSignature>)
        ensures
            r is Ok <==> self.spec_signature() == spec_signature_chars(
                signer.spec_key(),
                signer.spec_algorithm(),
                encode_utf8(self.spec_raw_value()),
            ),
            r matches Ok(v) ==> v@ == self.spec_unverified_value(),
            r matches Err(e) ==> match e {
                BadSignature::SignatureMismatch { signature, value } => {
                    &&& signature@ == self.spec_signature()
                    &&& value@ == self.spec_raw_value()
                },
                _ => false,
            },
    {
        let value = self.unverified_raw_value;
        let signature = self.unverified_signature;
        if signer.verify_encoded_signature(value.as_bytes(), signature) {
            Ok(self.unverified_value)
        } else {
            Err(
                BadSignature::SignatureMismatch {
                    signature: signature.to_owned(),
                    value: value.to_owned(),
                },
            )
        }
    }
}

/// A deserialized-but-unverified timed token: split, timestamp decoded,
/// payload decoded, signature not yet checked.
#[derive(Debug)]
pub struct UnverifiedTimedValue<'a> {
    unverified_value: String,
    unverified_raw_value: &'a str,
    unverified_signature: &'a str,
    unverified_timestamp: u64,
}

impl<'a> UnverifiedTimedValue<'a> {
    /// The decoded payload string, not yet verified.
    pub closed spec fn spec_unverified_value(&self) -> Seq<char> {
        self.unverified_value@
    }

    /// The raw payload-and-timestamp part of the token.
    pub closed spec fn spec_raw_value(&self) -> Seq<char> {
        self.unverified_raw_value@
    }

    /// The signature part of the token.
    pub closed spec fn spec_signature(&self) -> Seq<char> {
        self.unverified_signature@
    }

    /// The decoded timestamp, not yet verified.
    pub closed spec fn spec_unverified_timestamp(&self) -> u64 {
        self.unverified_timestamp
    }

    /// Splits a timed token, decodes its timestamp and its payload,
    /// without verifying the signature.
    pub fn from_str<E: Encoding>(separator: Separator, encoding: E, input: &'a str) -> (r: Result<
        UnverifiedTimedValue<'a>,
        BadTimedSignature,
    >)
        ensures
            r is Ok <==> ({
                let i = spec_last_index(input@, separator.spec_char());
                let raw = input@.subrange(0, i);
                let j = spec_last_index(raw, separator.spec_char());
                &&& i >= 0
                &&& j >= 0
                &&& spec_decode_timestamp_ok(raw.subrange(j + 1, raw.len() as int))
                &&& spec_decode_payload_ok(encoding.spec_kind(), raw.subrange(0, j))
            }),
            r matches Ok(u) ==> {
                let i = spec_last_index(input@, separator.spec_char());
                let raw = input@.subrange(0, i);
                let j = spec_last_index(raw, separator.spec_char());
                &&& i >= 0
                &&& j >= 0
                &&& u.spec_raw_value() == raw
                &&& u.spec_signature() == input@.subrange(i + 1, input@.len() as int)
                &&& spec_decode_timestamp_ok(raw.subrange(j + 1, raw.len() as int))
                &&& u.spec_unverified_timestamp() == spec_decoded_timestamp(
                    raw.subrange(j + 1, raw.len() as int),
                )
                &&& spec_decode_payload_ok(encoding.spec_kind(), raw.subrange(0, j))
                &&& u.spec_unverified_value() == spec_decode_payload(
                    encoding.spec_kind(),
                    raw.subrange(0, j),
                )
            },
            r matches Err(e) ==> match e {
                BadTimedSignature::SeparatorNotFound { separator: found } => {
                    let i = spec_last_index(input@, separator.spec_char());
                    &&& found == separator
                    &&& (i < 0 || spec_last_index(input@.subrange(0, i), separator.spec_char())
                        < 0)
                },
                BadTimedSignature::TimestampInvalid { timestamp } => {
                    let i = spec_last_index(input@, separator.spec_char());
                    let raw = input@.subrange(0, i);
                    let j = spec_last_index(raw, separator.spec_char());
                    &&& i >= 0
                    &&& j >= 0
                    &&& !spec_decode_timestamp_ok(raw.subrange(j + 1, raw.len() as int))
                    &&& timestamp@ == raw.subrange(j + 1, raw.len() as int)
                },
                BadTimedSignature::PayloadInvalid { value: v, error } => {
                    let i = spec_last_index(input@, separator.spec_char());
                    let raw = input@.subrange(0, i);
                    let j = spec_last_index(raw, separator.spec_char());
                    let serialized = raw.subrange(0, j);
                    &&& i >= 0
                    &&& j >= 0
                    &&& spec_decode_timestamp_ok(raw.subrange(j + 1, raw.len() as int))
                    &&& !spec_decode_payload_ok(encoding.spec_kind(), serialized)
                    &&& v@ == serialized
                    &&& match error {
                        PayloadError::Base64(_) => !b64_valid(serialized),
                        PayloadError::Utf8Error => b64_valid(serialized) && !valid_utf8(
                            b64_decode(serialized),
                        ),
                        PayloadError::Serialization => false,
                    }
                },
                _ => false,
            },
    {
        let (unverified_raw_value, unverified_signature) = match separator.split(input) {
            Ok(pair) => pair,
            Err(e) => {
                return Err(BadTimedSignature::SeparatorNotFound { separator: e.separator });
            },
        };
        let (serialized, ts_chars) = match separator.split(unverified_raw_value) {
            Ok(pair) => pair,
            Err(e) => {
                return Err(BadTimedSignature::SeparatorNotFound { separator: e.separator });
            },
        };
        let unverified_timestamp = match decode_timestamp(ts_chars) {
            Some(t) => t,
            Option::None => {
                return Err(
                    BadTimedSignature::TimestampInvalid { timestamp: ts_chars.to_owned() },
                );
            },
        };
        let unverified_value = match decode_payload(encoding.kind(), serialized.to_owned()) {
            Ok(v) => v,
            Err(error) => {
                return Err(
                    BadTimedSignature::PayloadInvalid { value: serialized.to_owned(), error },
                );
            },
        };
        Ok(
            UnverifiedTimedValue {
                unverified_value,
                unverified_raw_value,
                unverified_signature,
                unverified_timestamp,
            },
        )
    }

    /// The decoded payload, before any verification. Handle with care.
    pub fn unverified_value(&self) -> (r: &String)
        ensures
            r@ == self.spec_unverified_value(),
    {
        &self.unverified_value
    }

    /// The decoded timestamp, before any verification.
    pub fn unverified_timestamp(&self) -> (r: u64)
        ensures
            r == self.spec_unverified_timestamp(),
    {
        self.unverified_timestamp
    }

    /// Verifies the signature against a timestamp signer and, on
    /// success, hands out the decoded payload and timestamp.
    pub fn verify(self, timestamp_signer: &TimestampSignerImpl) -> (r: Result<
        UnsignedTimedSerializerValue<String>,
        BadTimedSignature,
    >)
        ensures
            r is Ok <==> self.spec_signature() == spec_signature_chars(
                timestamp_signer.spec_signer().spec_key(),
                timestamp_signer.spec_signer().spec_algorithm(),
                encode_utf8(self.spec_raw_value()),
            ),
            r matches Ok(u) ==> u.spec_value()@ == self.spec_unverified_value()
                && u.spec_timestamp() == self.spec_unverified_timestamp(),
            r matches Err(e) ==> match e {
                BadTimedSignature::SignatureMismatch { signature, value } => {
                    &&& signature@ == self.spec_signature()
                    &&& value@ == self.spec_raw_value()
                },
                _ => false,
            },
    {
        let value = self.unverified_raw_value;
        let signature = self.unverified_signature;
        if timestamp_signer.as_signer().verify_encoded_signature(value.as_bytes(), signature) {
            Ok(
                UnsignedTimedSerializerValue {
                    value: self.unverified_value,
                    timestamp: self.unverified_timestamp,
                },
            )
        } else {
            Err(
                BadTimedSignature::SignatureMismatch {
                    signature: signature.to_owned(),
                    value: value.to_owned(),
                },
            )
        }
    }
}

} // verus!
