//! The separator-framed signer: the core sign/unsign state machine.
//!
//! A signed token is `value + separator + base64(signature)`. Unsigning
//! splits at the last separator, recomputes the signature over the value
//! part, and compares in constant time. Because the separator lies outside
//! the base64 alphabet, the encoded signature can never contain it, and the
//! framing is unambiguous.

use vstd::prelude::*;
use vstd::string::{StrSliceExecFns, StringExecFns, StringSliceAdditionalSpecFns};
use vstd::utf8::encode_utf8;

use crate::algorithm::{
    compute_mac, constant_time_eq, spec_mac, spec_mac_len, AlgorithmKind, Signature,
};
use crate::base64::{
    b64_decode, b64_encode, b64_valid, decode, encode, is_b64_char, lemma_decode_ok,
    lemma_encode_ok, spec_in_alphabet, spec_output_size,
};
use crate::error::BadSignature;
use crate::key_derivation::{derive_key, spec_derive_key, DerivationKind};
use crate::separator::{lemma_last_index, lemma_last_index_is, spec_last_index, Separator};
use crate::text::push_char;

verus! {

/// The default salt, a fixed namespace string.
pub open spec fn spec_default_salt() -> Seq<char> {
    "itsdangerous.Signer"@
}

/// The base64 signature characters for a key, algorithm and message bytes.
pub open spec fn spec_signature_chars(key: Seq<u8>, alg: AlgorithmKind, msg: Seq<u8>) -> Seq<char> {
    b64_encode(spec_mac(alg, key, msg))
}

/// The signed token for a value: the value itself, the separator, then
/// the base64 signature over the value's UTF-8 bytes.
pub open spec fn spec_sign(key: Seq<u8>, alg: AlgorithmKind, sep: char, value: Seq<char>) -> Seq<
    char,
> {
    value + seq![sep] + spec_signature_chars(key, alg, encode_utf8(value))
}

/// Whether a token passes unsigning: it contains the separator, and the
/// part after its last occurrence is exactly the signature of the part
/// before it.
pub open spec fn spec_unsign_ok(
    key: Seq<u8>,
    alg: AlgorithmKind,
    sep: char,
    token: Seq<char>,
) -> bool {
    let i = spec_last_index(token, sep);
    &&& i >= 0
    &&& token.subrange(i + 1, token.len() as int) == spec_signature_chars(
        key,
        alg,
        encode_utf8(token.subrange(0, i)),
    )
}

/// The value part of a token: everything before the last separator.
pub open spec fn spec_unsign_value(token: Seq<char>, sep: char) -> Seq<char> {
    token.subrange(0, spec_last_index(token, sep))
}

/// The signer that `default_builder` builds.
pub type DefaultSigner = SignerImpl;

/// Configuration gathered before building a signer: secret key, salt,
/// separator, signing algorithm and key-derivation strategy.
pub struct SignerBuilder {
    secret_key: String,
    salt: String,
    separator: Separator,
    algorithm: AlgorithmKind,
    derivation: DerivationKind,
}

/// Constructs a builder with the default configuration: HMAC over the
/// SHA-1 digest, the legacy concatenation key derivation, and `.` as the
/// separator.
pub fn default_builder(secret_key: &str) -> (r: SignerBuilder)
    ensures
        r.spec_secret_key() == secret_key@,
        r.spec_salt() == spec_default_salt(),
        r.spec_separator().spec_char() == '.',
        r.spec_separator().wf(),
        r.spec_algorithm() == AlgorithmKind::HmacSha1,
        r.spec_derivation() == DerivationKind::DjangoConcat,
{
    SignerBuilder::new(secret_key, AlgorithmKind::HmacSha1, DerivationKind::DjangoConcat)
}

impl SignerBuilder {
    /// The secret key the signer will be derived from.
    pub closed spec fn spec_secret_key(&self) -> Seq<char> {
        self.secret_key@
    }

    /// The salt that namespaces the derived key.
    pub closed spec fn spec_salt(&self) -> Seq<char> {
        self.salt@
    }

    /// The separator the signer will frame tokens with.
    pub closed spec fn spec_separator(&self) -> Separator {
        self.separator
    }

    /// The signing algorithm.
    pub closed spec fn spec_algorithm(&self) -> AlgorithmKind {
        self.algorithm
    }

    /// The key-derivation strategy.
    pub closed spec fn spec_derivation(&self) -> DerivationKind {
        self.derivation
    }

    /// Constructs a new builder with a given secret key, algorithm and
    /// key-derivation strategy; salt and separator start at their defaults.
    pub fn new(secret_key: &str, algorithm: AlgorithmKind, derivation: DerivationKind) -> (r:
        SignerBuilder)
        ensures
            r.spec_secret_key() == secret_key@,
            r.spec_salt() == spec_default_salt(),
            r.spec_separator().spec_char() == '.',
            r.spec_separator().wf(),
            r.spec_algorithm() == algorithm,
            r.spec_derivation() == derivation,
    {
        SignerBuilder {
            secret_key: secret_key.to_owned(),
            salt: String::from_str("itsdangerous.Signer"),
            separator: Separator::default(),
            algorithm,
            derivation,
        }
    }

    /// Uses a specific salt with the signer, replacing the default.
    pub fn with_salt(self, salt: &str) -> (r: SignerBuilder)
        ensures
            r.spec_secret_key() == self.spec_secret_key(),
            r.spec_salt() == salt@,
            r.spec_separator() == self.spec_separator(),
            r.spec_algorithm() == self.spec_algorithm(),
            r.spec_derivation() == self.spec_derivation(),
    {
        SignerBuilder { salt: salt.to_owned(), ..self }
    }

    /// Uses a specific separator with the signer, replacing the default.
    pub fn with_separator(self, separator: Separator) -> (r: SignerBuilder)
        ensures
            r.spec_secret_key() == self.spec_secret_key(),
            r.spec_salt() == self.spec_salt(),
            r.spec_separator() == separator,
            r.spec_algorithm() == self.spec_algorithm(),
            r.spec_derivation() == self.spec_derivation(),
    {
        SignerBuilder { separator, ..self }
    }

    /// Builds the signer: derives the MAC key once from (secret key, salt)
    /// and fixes the separator and algorithm for the signer's lifetime.
    pub fn build(self) -> (r: SignerImpl)
        requires
            self.spec_separator().wf(),
        ensures
            r.spec_key() == spec_derive_key(
                self.spec_derivation(),
                encode_utf8(self.spec_secret_key()),
                encode_utf8(self.spec_salt()),
            ),
            r.spec_separator() == self.spec_separator(),
            r.spec_algorithm() == self.spec_algorithm(),
            r.wf(),
    {
        let derived_key = derive_key(self.derivation, self.secret_key.as_str(), self.salt.as_str());
        SignerImpl { derived_key, separator: self.separator, algorithm: self.algorithm }
    }
}

/// A signer bound to a derived key, a separator and an algorithm.
/// Immutable after construction; every sign/unsign call is a pure
/// function of the configuration and the call's own input.
pub struct SignerImpl {
    derived_key: Vec<u8>,
    separator: Separator,
    algorithm: AlgorithmKind,
}

impl SignerImpl {
    /// The derived MAC key.
    pub closed spec fn spec_key(&self) -> Seq<u8> {
        self.derived_key@
    }

    /// The separator framing this signer's tokens.
    pub closed spec fn spec_separator(&self) -> Separator {
        self.separator
    }

    /// The separator character.
    pub open spec fn spec_sep_char(&self) -> char {
        self.spec_separator().spec_char()
    }

    /// The signing algorithm.
    pub closed spec fn spec_algorithm(&self) -> AlgorithmKind {
        self.algorithm
    }

    /// A well-formed signer has a separator outside the base64 alphabet.
    pub open spec fn wf(&self) -> bool {
        self.spec_separator().wf()
    }

    /// The separator this signer frames tokens with.
    pub fn separator(&self) -> (r: Separator)
        ensures
            r == self.spec_separator(),
    {
        self.separator
    }

    /// The signature bytes for a message.
    pub fn get_signature(&self, value: &[u8]) -> (r: Signature)
        ensures
            r@ == spec_mac(self.spec_algorithm(), self.spec_key(), value@),
    {
        Signature::from_bytes(
            compute_mac(self.algorithm, self.derived_key.as_slice(), value),
        )
    }

    /// The length in characters of the base64 signature part of a token.
    pub fn signature_output_size(&self) -> (r: usize)
        ensures
            r == spec_output_size(spec_mac_len(self.spec_algorithm())),
    {
        match self.algorithm {
            AlgorithmKind::Null => 0,
            AlgorithmKind::HmacSha1 => 27,
        }
    }

    /// Whether `encoded_signature` is exactly the base64 signature this
    /// signer assigns to `value`. Decode failures and mismatches are not
    /// distinguished.
    pub fn verify_encoded_signature(&self, value: &[u8], encoded_signature: &str) -> (r: bool)
        ensures
            r == (encoded_signature@ == spec_signature_chars(
                self.spec_key(),
                self.spec_algorithm(),
                value@,
            )),
    {
        let computed = compute_mac(self.algorithm, self.derived_key.as_slice(), value);
        proof {
            lemma_encode_ok(computed@);
        }
        match decode(encoded_signature) {
            Ok(decoded) => {
                let r = constant_time_eq(decoded.as_slice(), computed.as_slice());
                proof {
                    lemma_decode_ok(encoded_signature@);
                }
                r
            },
            Err(_) => false,
        }
    }

    /// Signs the given string: `value + separator + base64(signature)`,
    /// where the signature covers the value's UTF-8 bytes.
    pub fn sign(&self, value: &str) -> (r: String)
        requires
            self.wf(),
        ensures
            r@ == spec_sign(self.spec_key(), self.spec_algorithm(), self.spec_sep_char(), value@),
    {
        let mac = compute_mac(self.algorithm, self.derived_key.as_slice(), value.as_bytes());
        let encoded_sig = encode(mac.as_slice());
        let mut out = String::new();
        out.append(value);
        push_char(&mut out, self.separator.as_char());
        out.append(encoded_sig.as_str());
        proof {
            assert(out@ =~= value@ + seq![self.spec_sep_char()] + spec_signature_chars(
                self.spec_key(),
                self.spec_algorithm(),
                encode_utf8(value@),
            ));
        }
        out
    }

    /// Unsigns the given string: the logical inverse of `sign`.
    ///
    /// On success returns the value part, a borrowed slice of the input.
    /// Fails with `SeparatorNotFound` when the separator does not occur,
    /// and with `SignatureMismatch` when the part after the last separator
    /// is not the signature of the part before it — whether because it
    /// does not decode or because the bytes differ; the two are
    /// deliberately not distinguished.
    pub fn unsign<'a>(&self, value: &'a str) -> (r: Result<&'a str, BadSignature>)
        requires
            self.wf(),
        ensures
            r is Ok <==> spec_unsign_ok(
                self.spec_key(),
                self.spec_algorithm(),
                self.spec_sep_char(),
                value@,
            ),
            r matches Ok(v) ==> v@ == spec_unsign_value(value@, self.spec_sep_char()),
            r matches Err(e) ==> match e {
                BadSignature::SeparatorNotFound { separator } => {
                    &&& separator == self.spec_separator()
                    &&& spec_last_index(value@, self.spec_sep_char()) < 0
                },
                BadSignature::SignatureMismatch { signature, value: v } => {
                    let i = spec_last_index(value@, self.spec_sep_char());
                    &&& i >= 0
                    &&& v@ == value@.subrange(0, i)
                    &&& signature@ == value@.subrange(i + 1, value@.len() as int)
                },
                BadSignature::PayloadInvalid { .. } => false,
            },
    {
        let (val, sig) = match self.separator.split(value) {
            Ok(p) => p,
            Err(e) => {
                return Err(BadSignature::SeparatorNotFound { separator: e.separator });
            },
        };
        if self.verify_encoded_signature(val.as_bytes(), sig) {
            Ok(val)
        } else {
            Err(
                BadSignature::SignatureMismatch {
                    signature: sig.to_owned(),
                    value: val.to_owned(),
                },
            )
        }
    }

    /// Converts this signer by value into a timestamp signer wrapping
    /// it: no data is lost and the key is not re-derived.
    pub fn into_timestamp_signer(self) -> (r: crate::timed::TimestampSignerImpl)
        ensures
            r.spec_signer() == self,
    {
        crate::timed::TimestampSignerImpl::with_signer(self)
    }

    /// This signer, as the plain signer of a layered construction.
    pub fn as_signer(&self) -> (r: &SignerImpl)
        ensures
            r == self,
    {
        self
    }
}

/// Signing then unsigning with the same configuration recovers the value:
/// the separator cannot occur in the base64 signature, so the framing
/// splits where the signer joined.
pub proof fn lemma_sign_unsign_round_trip(
    key: Seq<u8>,
    alg: AlgorithmKind,
    sep: char,
    value: Seq<char>,
)
    requires
        !spec_in_alphabet(sep),
    ensures
        spec_unsign_ok(key, alg, sep, spec_sign(key, alg, sep, value)),
        spec_unsign_value(spec_sign(key, alg, sep, value), sep) == value,
{
    let enc = spec_signature_chars(key, alg, encode_utf8(value));
    let token = spec_sign(key, alg, sep, value);
    lemma_encode_ok(spec_mac(alg, key, encode_utf8(value)));
    assert(token.len() == value.len() + 1 + enc.len());
    assert(token[value.len() as int] == sep);
    assert forall|j: int| value.len() < j < token.len() implies token[j] != sep by {
        assert(token[j] == enc[j - value.len() - 1]);
        assert(is_b64_char(enc[j - value.len() - 1]));
    }
    lemma_last_index_is(token, sep, value.len() as int);
    assert(token.subrange(0, value.len() as int) =~= value);
    assert(token.subrange(value.len() as int + 1, token.len() as int) =~= enc);
}

/// Unsigning succeeds only on tokens that are exactly the signing of the
/// value they yield: a successful unsign pins the whole token.
pub proof fn lemma_unsign_sound(key: Seq<u8>, alg: AlgorithmKind, sep: char, token: Seq<char>)
    requires
        spec_unsign_ok(key, alg, sep, token),
    ensures
        token == spec_sign(key, alg, sep, spec_unsign_value(token, sep)),
{
    let i = spec_last_index(token, sep);
    lemma_last_index(token, sep);
    assert(token[i] == sep);
    let v = token.subrange(0, i);
    let s = token.subrange(i + 1, token.len() as int);
    assert(token =~= v + seq![sep] + s);
}

/// Tampering with the signature part of a token is detected: changing any
/// one character there (to anything but the separator) makes unsigning
/// report a signature mismatch rather than succeed.
pub proof fn lemma_signature_tamper_detected(
    key: Seq<u8>,
    alg: AlgorithmKind,
    sep: char,
    value: Seq<char>,
    k: int,
    c: char,
)
    requires
        !spec_in_alphabet(sep),
        value.len() < k < spec_sign(key, alg, sep, value).len(),
        c != spec_sign(key, alg, sep, value)[k],
        c != sep,
    ensures
        !spec_unsign_ok(key, alg, sep, spec_sign(key, alg, sep, value).update(k, c)),
        spec_last_index(spec_sign(key, alg, sep, value).update(k, c), sep) == value.len(),
{
    let token = spec_sign(key, alg, sep, value);
    let enc = spec_signature_chars(key, alg, encode_utf8(value));
    let t = token.update(k, c);
    lemma_encode_ok(spec_mac(alg, key, encode_utf8(value)));
    assert(t[value.len() as int] == sep);
    assert forall|j: int| value.len() < j < t.len() implies t[j] != sep by {
        if j != k {
            assert(t[j] == enc[j - value.len() - 1]);
            assert(is_b64_char(enc[j - value.len() - 1]));
        }
    }
    lemma_last_index_is(t, sep, value.len() as int);
    assert(t.subrange(0, value.len() as int) =~= value);
    let s = t.subrange(value.len() as int + 1, t.len() as int);
    assert(s[k - value.len() - 1] == c);
    assert(enc[k - value.len() - 1] == token[k]);
    assert(s != enc);
}

} // verus!
