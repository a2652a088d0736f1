//! Key derivation: turning a secret key and a salt into the MAC key.
//!
//! The salt namespaces keys, so that a value signed for one part of an
//! application cannot be replayed against another. Derivation is not a
//! password-hardening function — there is no iteration count and no
//! deliberate slowness — so callers should use large random secret keys.

use vstd::prelude::*;
use vstd::string::StrSliceExecFns;
use vstd::utf8::encode_utf8;

use crate::algorithm::{extend_bytes, hmac_sha1, hmac_sha1_of, sha1_digest, sha1_of};

verus! {

/// The closed set of key-derivation strategies.
#[derive(Debug, Clone, Copy, PartialEq, Eq, Structural)]
pub enum DerivationKind {
    /// `digest(salt || secret_key)`.
    Concat,
    /// `digest(salt || "signer" || secret_key)`: a fixed literal is
    /// interposed, preserving bit-compatibility with the legacy scheme.
    DjangoConcat,
    /// `HMAC(key = secret_key, message = salt)`.
    Hmac,
}

/// The bytes of the fixed literal interposed by `DjangoConcat`.
pub open spec fn signer_tag() -> Seq<u8> {
    seq![115u8, 105u8, 103u8, 110u8, 101u8, 114u8]  // "signer"
}

/// The derived key for a strategy, a secret key and a salt, all as the
/// UTF-8 bytes of the caller's strings.
pub open spec fn spec_derive_key(kind: DerivationKind, secret: Seq<u8>, salt: Seq<u8>) -> Seq<u8> {
    match kind {
        DerivationKind::Concat => sha1_of(salt + secret),
        DerivationKind::DjangoConcat => sha1_of(salt + signer_tag() + secret),
        DerivationKind::Hmac => hmac_sha1_of(secret, salt),
    }
}

/// Derives the fixed-size MAC key for a secret key and salt: a pure
/// function of its inputs, computed once per signer and then reused.
pub fn derive_key(kind: DerivationKind, secret_key: &str, salt: &str) -> (r: Vec<u8>)
    ensures
        r@ == spec_derive_key(kind, encode_utf8(secret_key@), encode_utf8(salt@)),
        r@.len() == 20,
{
    match kind {
        DerivationKind::Concat => {
            let mut msg: Vec<u8> = Vec::new();
            extend_bytes(&mut msg, salt.as_bytes());
            extend_bytes(&mut msg, secret_key.as_bytes());
            proof {
                assert(Seq::<u8>::empty() + encode_utf8(salt@) + encode_utf8(secret_key@)
                    =~= encode_utf8(salt@) + encode_utf8(secret_key@));
            }
            sha1_digest(msg.as_slice())
        },
        DerivationKind::DjangoConcat => {
            let tag: [u8; 6] = [115, 105, 103, 110, 101, 114];
            let mut msg: Vec<u8> = Vec::new();
            extend_bytes(&mut msg, salt.as_bytes());
            extend_bytes(&mut msg, tag.as_slice());
            extend_bytes(&mut msg, secret_key.as_bytes());
            proof {
                assert(tag@ =~= signer_tag());
                assert(Seq::<u8>::empty() + encode_utf8(salt@) + tag@ + encode_utf8(secret_key@)
                    =~= encode_utf8(salt@) + signer_tag() + encode_utf8(secret_key@));
            }
            sha1_digest(msg.as_slice())
        },
        DerivationKind::Hmac => hmac_sha1(secret_key.as_bytes(), salt.as_bytes()),
    }
}

/// Derives a key by doing `digest(salt + secret_key)`.
pub struct Concat;

/// Derives a key by doing `digest(salt + "signer" + secret_key)`.
pub struct DjangoConcat;

/// Derives a key by doing `hmac(secret_key, input = salt)`.
pub struct Hmac;

impl Concat {
    /// `digest(salt || secret_key)`.
    pub fn derive_key(secret_key: &str, salt: &str) -> (r: Vec<u8>)
        ensures
            r@ == spec_derive_key(
                DerivationKind::Concat,
                encode_utf8(secret_key@),
                encode_utf8(salt@),
            ),
            r@.len() == 20,
    {
        derive_key(DerivationKind::Concat, secret_key, salt)
    }
}

impl DjangoConcat {
    /// `digest(salt || "signer" || secret_key)`.
    pub fn derive_key(secret_key: &str, salt: &str) -> (r: Vec<u8>)
        ensures
            r@ == spec_derive_key(
                DerivationKind::DjangoConcat,
                encode_utf8(secret_key@),
                encode_utf8(salt@),
            ),
            r@.len() == 20,
    {
        derive_key(DerivationKind::DjangoConcat, secret_key, salt)
    }
}

impl Hmac {
    /// `hmac(secret_key, input = salt)`.
    pub fn derive_key(secret_key: &str, salt: &str) -> (r: Vec<u8>)
        ensures
            r@ == spec_derive_key(
                DerivationKind::Hmac,
                encode_utf8(secret_key@),
                encode_utf8(salt@),
            ),
            r@.len() == 20,
    {
        derive_key(DerivationKind::Hmac, secret_key, salt)
    }
}

} // verus!
