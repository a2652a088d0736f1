//! Key rotation: sign with the current key, accept tokens from old ones.
//!
//! A multi-serializer holds one primary serializer, used for all signing
//! and tried first for unsigning, plus fallbacks tried in registration
//! order. When nothing accepts a token, the primary's error is reported,
//! since the primary is the caller's main point of reference.

use vstd::prelude::*;

use crate::error::BadSignature;
use crate::separator::spec_last_index;
use crate::serializer::SerializerImpl;
use crate::signer::{spec_sign, spec_unsign_ok, spec_unsign_value};

verus! {

/// One primary serializer plus fallbacks for unsigning during rotation.
pub struct MultiSerializer {
    primary_serializer: SerializerImpl,
    fallback_serializers: Vec<SerializerImpl>,
}

impl MultiSerializer {
    /// The serializer used for signing and tried first for unsigning.
    pub closed spec fn spec_primary(&self) -> SerializerImpl {
        self.primary_serializer
    }

    /// The fallbacks, in the order they were registered.
    pub closed spec fn spec_fallbacks(&self) -> Seq<SerializerImpl> {
        self.fallback_serializers@
    }

    /// Well-formed when every member is.
    pub open spec fn wf(&self) -> bool {
        &&& self.spec_primary().wf()
        &&& forall|i: int|
            0 <= i < self.spec_fallbacks().len() ==> (#[trigger] self.spec_fallbacks()[i]).wf()
    }

    /// Whether any member, primary or fallback, accepts the token.
    pub open spec fn spec_any_ok(&self, token: Seq<char>) -> bool {
        self.spec_primary().spec_unsign_ok_of(token) || exists|i: int|
            0 <= i < self.spec_fallbacks().len() && (#[trigger] self.spec_fallbacks()[i]).spec_unsign_ok_of(
                token,
            )
    }

    /// Constructs a multi-serializer with a given serializer as primary
    /// and no fallbacks yet.
    pub fn new(primary_serializer: SerializerImpl) -> (r: MultiSerializer)
        ensures
            r.spec_primary() == primary_serializer,
            r.spec_fallbacks().len() == 0,
    {
        MultiSerializer { primary_serializer, fallback_serializers: Vec::new() }
    }

    /// Registers one more fallback, tried after all earlier ones.
    pub fn add_fallback(self, fallback_serializer: SerializerImpl) -> (r: MultiSerializer)
        ensures
            r.spec_primary() == self.spec_primary(),
            r.spec_fallbacks() == self.spec_fallbacks().push(fallback_serializer),
    {
        let mut s = self;
        s.fallback_serializers.push(fallback_serializer);
        s
    }

    /// Signs with the primary serializer only; fallbacks never produce
    /// new tokens.
    pub fn sign(&self, value: &str) -> (r: String)
        requires
            self.wf(),
        ensures
            r@ == spec_sign(
                self.spec_primary().spec_signer().spec_key(),
                self.spec_primary().spec_signer().spec_algorithm(),
                self.spec_primary().spec_signer().spec_sep_char(),
                crate::serializer::spec_encode_payload(
                    self.spec_primary().spec_encoding(),
                    value@,
                ),
            ),
    {
        self.primary_serializer.sign(value)
    }

    /// Unsigns with the primary first; on failure tries each fallback in
    /// registration order and stops at the first that accepts the token.
    /// When none does, the primary's own error is surfaced.
    #[verifier::loop_isolation(false)]
    pub fn unsign<'a>(&self, value: &'a str) -> (r: Result<String, BadSignature>)
        requires
            self.wf(),
        ensures
            r is Ok <==> self.spec_any_ok(value@),
            self.spec_primary().spec_unsign_ok_of(value@) ==> (r matches Ok(v) && v@
                == self.spec_primary().spec_unsign_value_of(value@)),
            !self.spec_primary().spec_unsign_ok_of(value@) ==> (r matches Ok(v) ==> exists|i: int|
                {
                    &&& 0 <= i < self.spec_fallbacks().len()
                    &&& (#[trigger] self.spec_fallbacks()[i]).spec_unsign_ok_of(value@)
                    &&& forall|j: int|
                        0 <= j < i ==> !(#[trigger] self.spec_fallbacks()[j]).spec_unsign_ok_of(
                            value@,
                        )
                    &&& v@ == self.spec_fallbacks()[i].spec_unsign_value_of(value@)
                }),
            r matches Err(e) ==> match e {
                BadSignature::SeparatorNotFound { separator } => {
                    &&& separator == self.spec_primary().spec_signer().spec_separator()
                    &&& spec_last_index(
                        value@,
                        self.spec_primary().spec_signer().spec_sep_char(),
                    ) < 0
                },
                BadSignature::SignatureMismatch { signature, value: v } => {
                    let i = spec_last_index(
                        value@,
                        self.spec_primary().spec_signer().spec_sep_char(),
                    );
                    &&& i >= 0
                    &&& !spec_unsign_ok(
                        self.spec_primary().spec_signer().spec_key(),
                        self.spec_primary().spec_signer().spec_algorithm(),
                        self.spec_primary().spec_signer().spec_sep_char(),
                        value@,
                    )
                    &&& v@ == value@.subrange(0, i)
                    &&& signature@ == value@.subrange(i + 1, value@.len() as int)
                },
                BadSignature::PayloadInvalid { value: v, error } => {
                    &&& spec_unsign_ok(
                        self.spec_primary().spec_signer().spec_key(),
                        self.spec_primary().spec_signer().spec_algorithm(),
                        self.spec_primary().spec_signer().spec_sep_char(),
                        value@,
                    )
                    &&& !crate::serializer::spec_decode_payload_ok(
                        self.spec_primary().spec_encoding(),
                        spec_unsign_value(
                            value@,
                            self.spec_primary().spec_signer().spec_sep_char(),
                        ),
                    )
                    &&& v@ == spec_unsign_value(
                        value@,
                        self.spec_primary().spec_signer().spec_sep_char(),
                    )
                },
            },
    {
        let primary_serializer_error = match self.primary_serializer.unsign(value) {
            Ok(unsigned) => {
                return Ok(unsigned);
            },
            Err(err) => err,
        };
        let n = self.fallback_serializers.len();
        let mut i: usize = 0;
        while i < n
            invariant
                self.wf(),
                n == self.spec_fallbacks().len(),
                i <= n,
                forall|j: int|
                    0 <= j < i ==> !(#[trigger] self.spec_fallbacks()[j]).spec_unsign_ok_of(
                        value@,
                    ),
            decreases n - i,
        {
            let fallback = &self.fallback_serializers[i];
            match fallback.unsign_to_string(value) {
                Ok(unsigned) => {
                    return Ok(unsigned);
                },
                Err(_) => {},
            }
            i = i + 1;
        }
        Err(primary_serializer_error)
    }
}

} // verus!
