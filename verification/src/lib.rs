//! Signing and verification of string tokens.
//!
//! A value is rendered tamper-evident by appending a keyed-MAC signature,
//! base64-encoded and joined with a separator character. An optional
//! timestamp can be folded into the signed payload so that tokens expire.

#![allow(unused_imports)]

pub mod algorithm;
pub mod base64;
pub mod error;
pub mod key_derivation;
pub mod multi_serializer;
pub mod separator;
pub mod seperator;
pub mod serializer;
pub mod signer;
pub mod timed;
pub mod timestamp;
mod text;

pub use error::{BadSignature, BadTimedSignature, InvalidSeparator, PayloadError, TimestampExpired};
pub use separator::Separator;
pub use seperator::Seperator;
pub use multi_serializer::MultiSerializer;
pub use signer::{default_builder, DefaultSigner, SignerBuilder, SignerImpl};
pub use timed::{DefaultTimestampSigner, TimestampSignerImpl, UnsignedValue};
pub use serializer::{serializer_with_signer, timed_serializer_with_signer, Encoding, NullEncoding, SerializerImpl, TimedSerializerImpl, URLSafeEncoding, UnsignedTimedSerializerValue, UnverifiedTimedValue, UnverifiedValue};

pub use base64::in_alphabet;
pub use base64::output_size;
