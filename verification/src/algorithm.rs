//! Signing algorithms: a no-op placeholder and HMAC over SHA-1.
//!
//! The algorithm turns a derived key and a message into a fixed-size
//! signature. The digest computations themselves live in outside crates;
//! everything around them — accumulation of input, comparison, encoding —
//! is verified here.

use vstd::prelude::*;

use hmac::{Hmac, Mac};
use sha1::{Digest, Sha1};

use crate::base64::{b64_encode, encode};

verus! {

/// The SHA-1 digest of a byte sequence. The value is pinned only by the
/// outside implementation; the library reasons about it by name.
pub uninterp spec fn sha1_of(data: Seq<u8>) -> Seq<u8>;

/// The HMAC-SHA1 tag for a key and a message, a function of the two alone.
pub uninterp spec fn hmac_sha1_of(key: Seq<u8>, msg: Seq<u8>) -> Seq<u8>;

/// Relies on `sha1::Sha1` through `Digest::digest`: the 20-byte digest is
/// a function of the input bytes alone.
#[verifier::external_body]
pub(crate) fn sha1_digest(data: &[u8]) -> (r: Vec<u8>)
    ensures
        r@ == sha1_of(data@),
        r@.len() == 20,
{
    Sha1::digest(data).to_vec()
}

/// Relies on `hmac::Hmac<Sha1>` through the `Mac` trait: `new_from_slice`
/// accepts keys of any length for HMAC, and the 20-byte tag depends on the
/// key and the accumulated message alone.
#[verifier::external_body]
pub(crate) fn hmac_sha1(key: &[u8], msg: &[u8]) -> (r: Vec<u8>)
    ensures
        r@ == hmac_sha1_of(key@, msg@),
        r@.len() == 20,
{
    let mut mac: Hmac<Sha1> = Mac::new_from_slice(key).unwrap();
    mac.update(msg);
    mac.finalize().into_bytes().to_vec()
}

/// The closed set of signing algorithms.
#[derive(Debug, Clone, Copy, PartialEq, Eq, Structural)]
pub enum AlgorithmKind {
    /// No signing: the signature is empty.
    Null,
    /// HMAC keyed on the derived key, over the SHA-1 digest.
    HmacSha1,
}

/// The signature an algorithm assigns to a key and a message.
pub open spec fn spec_mac(alg: AlgorithmKind, key: Seq<u8>, msg: Seq<u8>) -> Seq<u8> {
    match alg {
        AlgorithmKind::Null => Seq::<u8>::empty(),
        AlgorithmKind::HmacSha1 => hmac_sha1_of(key, msg),
    }
}

/// The size in bytes of the signatures an algorithm produces.
pub open spec fn spec_mac_len(alg: AlgorithmKind) -> nat {
    match alg {
        AlgorithmKind::Null => 0,
        AlgorithmKind::HmacSha1 => 20,
    }
}

/// Computes the signature bytes for an algorithm, key and message.
pub fn compute_mac(alg: AlgorithmKind, key: &[u8], msg: &[u8]) -> (r: Vec<u8>)
    ensures
        r@ == spec_mac(alg, key@, msg@),
        r@.len() == spec_mac_len(alg),
{
    match alg {
        AlgorithmKind::Null => Vec::new(),
        AlgorithmKind::HmacSha1 => hmac_sha1(key, msg),
    }
}

/// Appends the bytes of a slice to a vector.
pub(crate) fn extend_bytes(dst: &mut Vec<u8>, src: &[u8])
    ensures
        final(dst)@ == old(dst)@ + src@,
{
    let n: usize = src.len();
    let mut i: usize = 0;
    while i < n
        invariant
            n == src@.len(),
            i <= n,
            dst@ == old(dst)@ + src@.take(i as int),
        decreases n - i,
    {
        proof {
            assert(src@.take(i as int).push(src@[i as int]) =~= src@.take(i + 1));
        }
        dst.push(src[i]);
        i = i + 1;
    }
    proof {
        assert(src@.take(n as int) =~= src@);
    }
}

proof fn lemma_xor_zero(a: u8, b: u8)
    by (bit_vector)
    ensures
        (a ^ b) == 0 <==> a == b,
        ((a ^ b) | 0) == (a ^ b),
{
}

proof fn lemma_or_nonzero(acc: u8, x: u8)
    by (bit_vector)
    ensures
        (acc | x) == 0 <==> acc == 0 && x == 0,
{
}

/// Compares two byte strings of equal length without an early exit on the
/// first differing byte, folding the differences together and testing only
/// the final accumulator. Lengths are public; the bytes are not.
pub fn constant_time_eq(a: &[u8], b: &[u8]) -> (r: bool)
    ensures
        r == (a@ == b@),
{
    let n: usize = a.len();
    if n != b.len() {
        proof {
            assert(a@.len() != b@.len());
        }
        return false;
    }
    let mut acc: u8 = 0;
    let mut i: usize = 0;
    while i < n
        invariant
            n == a@.len(),
            n == b@.len(),
            i <= n,
            acc == 0 <==> forall|j: int| 0 <= j < i ==> a@[j] == b@[j],
        decreases n - i,
    {
        proof {
            lemma_xor_zero(a@[i as int], b@[i as int]);
            lemma_or_nonzero(acc, a@[i as int] ^ b@[i as int]);
        }
        acc = acc | (a[i] ^ b[i]);
        i = i + 1;
    }
    proof {
        if acc == 0 {
            assert(a@ =~= b@);
        } else {
            let j = choose|j: int| 0 <= j < n && a@[j] != b@[j];
            assert(a@[j] != b@[j]);
        }
    }
    acc == 0
}

/// A computed signature: a fixed-length tag over the signed bytes.
///
/// Two signatures compare as equal through a comparison without early
/// exit, so that a partial match costs the same as a full mismatch.
#[derive(Debug)]
pub struct Signature {
    bytes: Vec<u8>,
}

impl View for Signature {
    type V = Seq<u8>;

    closed spec fn view(&self) -> Seq<u8> {
        self.bytes@
    }
}

impl Signature {
    /// Wraps raw signature bytes.
    pub fn from_bytes(bytes: Vec<u8>) -> (r: Signature)
        ensures
            r@ == bytes@,
    {
        Signature { bytes }
    }

    /// The raw signature bytes.
    pub fn code(self) -> (r: Vec<u8>)
        ensures
            r@ == self@,
    {
        self.bytes
    }

    /// The url-safe unpadded base64 rendering of the signature.
    pub fn base64_encode(&self) -> (r: String)
        ensures
            r@ == b64_encode(self@),
    {
        encode(self.bytes.as_slice())
    }
}

impl PartialEq for Signature {
    fn eq(&self, other: &Signature) -> (r: bool) {
        constant_time_eq(self.bytes.as_slice(), other.bytes.as_slice())
    }
}

impl Eq for Signature {

}

impl vstd::std_specs::cmp::PartialEqSpecImpl for Signature {
    open spec fn obeys_eq_spec() -> bool {
        true
    }

    open spec fn eq_spec(&self, other: &Signature) -> bool {
        self@ == other@
    }
}

/// An algorithm that performs no signing and returns an empty signature.
/// Useful for exercising the framing logic in isolation.
pub struct NoneAlgorithm;

/// The in-progress state of a no-op signature.
pub struct NoneSigner;

impl NoneAlgorithm {
    /// A signer that will produce the empty signature.
    pub fn get_signer(_key: &[u8]) -> NoneSigner {
        NoneSigner
    }

    /// The signature for a key and a value: always empty.
    pub fn get_signature(key: &[u8], value: &[u8]) -> (r: Signature)
        ensures
            r@ == Seq::<u8>::empty(),
    {
        NoneAlgorithm::get_signer(key).input_chained(value).sign()
    }
}

impl NoneSigner {
    /// Fresh no-op signer for a key.
    pub fn new(_key: &[u8]) -> NoneSigner {
        NoneSigner
    }

    /// Absorbs input; for the no-op algorithm this does nothing.
    pub fn input(&mut self, _value: &[u8]) {
    }

    /// Absorbs input and hands the signer back.
    pub fn input_chained(self, _value: &[u8]) -> NoneSigner {
        self
    }

    /// The empty signature.
    pub fn sign(self) -> (r: Signature)
        ensures
            r@ == Seq::<u8>::empty(),
    {
        Signature { bytes: Vec::new() }
    }
}

/// HMAC signing over the SHA-1 digest.
pub struct HMACAlgorithm;

/// The in-progress state of an HMAC-SHA1 signature: the key and the
/// message absorbed so far. The tag is computed in one sweep when the
/// signer is consumed.
pub struct HMACSigner {
    key: Vec<u8>,
    data: Vec<u8>,
}

impl HMACAlgorithm {
    /// A signer keyed with `key` that has absorbed nothing yet.
    pub fn get_signer(key: &[u8]) -> (r: HMACSigner)
        ensures
            r.spec_key() == key@,
            r.spec_data() == Seq::<u8>::empty(),
    {
        HMACSigner::new(key)
    }

    /// The HMAC-SHA1 tag for a key and a value.
    pub fn get_signature(key: &[u8], value: &[u8]) -> (r: Signature)
        ensures
            r@ == hmac_sha1_of(key@, value@),
    {
        let r = HMACAlgorithm::get_signer(key).input_chained(value).sign();
        proof {
            assert(Seq::<u8>::empty() + value@ =~= value@);
        }
        r
    }
}

impl HMACSigner {
    /// The key the signer was created with.
    pub closed spec fn spec_key(&self) -> Seq<u8> {
        self.key@
    }

    /// The message bytes absorbed so far.
    pub closed spec fn spec_data(&self) -> Seq<u8> {
        self.data@
    }

    /// Fresh signer for a key, with nothing absorbed.
    pub fn new(key: &[u8]) -> (r: HMACSigner)
        ensures
            r.spec_key() == key@,
            r.spec_data() == Seq::<u8>::empty(),
    {
        HMACSigner { key: vstd::slice::slice_to_vec(key), data: Vec::new() }
    }

    /// Absorbs more message bytes.
    pub fn input(&mut self, value: &[u8])
        ensures
            final(self).spec_key() == old(self).spec_key(),
            final(self).spec_data() == old(self).spec_data() + value@,
    {
        extend_bytes(&mut self.data, value);
    }

    /// Absorbs more message bytes and hands the signer back.
    pub fn input_chained(self, value: &[u8]) -> (r: HMACSigner)
        ensures
            r.spec_key() == self.spec_key(),
            r.spec_data() == self.spec_data() + value@,
    {
        let mut s = self;
        s.input(value);
        s
    }

    /// Consumes the signer and returns the tag over everything absorbed.
    pub fn sign(self) -> (r: Signature)
        ensures
            r@ == hmac_sha1_of(self.spec_key(), self.spec_data()),
    {
        Signature { bytes: hmac_sha1(self.key.as_slice(), self.data.as_slice()) }
    }
}

} // verus!
