//! URL-safe base64 codec without padding.
//!
//! Signatures and timestamps travel inside tokens as unpadded, URL-safe
//! base64 text. The codec here is strict: decoding succeeds exactly on the
//! strings the encoder produces, so a byte sequence and its encoding
//! determine each other.

use vstd::prelude::*;

use crate::text::push_char;

verus! {

/// Failure cases of the strict decoder.
#[derive(Debug, Clone, Copy, PartialEq, Eq, Structural)]
pub enum DecodeError {
    /// A character outside the URL-safe alphabet, with its position.
    InvalidByte(usize, char),
    /// The input length can never arise from unpadded encoding.
    InvalidLength,
    /// The final character carries bits beyond the last byte.
    InvalidLastSymbol(usize, char),
}

/// The character the encoder uses for a six-bit group.
pub open spec fn b64_char(s: u8) -> char
    recommends
        s < 64,
{
    if s < 26 {
        ((s + 65) as u8) as char  // 'A'..='Z'
    } else if s < 52 {
        ((s + 71) as u8) as char  // 'a'..='z'
    } else if s < 62 {
        ((s - 4) as u8) as char  // '0'..='9'
    } else if s == 62 {
        '-'
    } else {
        '_'
    }
}

/// Whether a character can appear in an unpadded URL-safe base64 string.
pub open spec fn is_b64_char(c: char) -> bool {
    let u = c as u32;
    (65 <= u && u <= 90) || (97 <= u && u <= 122) || (48 <= u && u <= 57) || c == '-' || c == '_'
}

/// The six-bit value a base64 character stands for.
pub open spec fn sextet_val(c: char) -> u8
    recommends
        is_b64_char(c),
{
    let u = c as u32;
    if 65 <= u && u <= 90 {
        (u - 65) as u8
    } else if 97 <= u && u <= 122 {
        (u - 71) as u8
    } else if 48 <= u && u <= 57 {
        (u + 4) as u8
    } else if c == '-' {
        62
    } else {
        63
    }
}

/// Membership in the URL-safe alphabet extended with the padding character.
/// A separator must avoid all of these, padding included, so that a separator
/// can never collide with signature text.
pub open spec fn spec_in_alphabet(c: char) -> bool {
    is_b64_char(c) || c == '='
}

/// Reports whether `c` belongs to the URL-safe base64 alphabet
/// (letters, digits, `-`, `_`, `=`).
pub fn in_alphabet(c: char) -> (r: bool)
    ensures
        r == spec_in_alphabet(c),
{
    let u = c as u32;
    (65 <= u && u <= 90) || (97 <= u && u <= 122) || (48 <= u && u <= 57) || c == '-' || c == '_'
        || c == '='
}

/// Every character the encoder emits is in the URL-safe alphabet, and
/// decoding it recovers the six-bit group exactly.
pub proof fn lemma_b64_char_roundtrip(s: u8)
    requires
        s < 64,
    ensures
        is_b64_char(b64_char(s)),
        sextet_val(b64_char(s)) == s,
{
}

/// Encoding is the inverse of decoding on alphabet characters, so each
/// six-bit group has exactly one character form.
pub proof fn lemma_sextet_val_roundtrip(c: char)
    requires
        is_b64_char(c),
    ensures
        sextet_val(c) < 64,
        b64_char(sextet_val(c)) == c,
{
    vstd::utf8::char_u32_cast(c, c as u32);
}

/// The four characters encoding a full three-byte group.
pub open spec fn encode3(b0: u8, b1: u8, b2: u8) -> Seq<char> {
    seq![
        b64_char(b0 >> 2),
        b64_char(((b0 & 3) << 4) | (b1 >> 4)),
        b64_char(((b1 & 15) << 2) | (b2 >> 6)),
        b64_char(b2 & 63),
    ]
}

/// The three characters encoding two leftover bytes.
pub open spec fn encode2(b0: u8, b1: u8) -> Seq<char> {
    seq![b64_char(b0 >> 2), b64_char(((b0 & 3) << 4) | (b1 >> 4)), b64_char((b1 & 15) << 2)]
}

/// The two characters encoding one leftover byte.
pub open spec fn encode1(b0: u8) -> Seq<char> {
    seq![b64_char(b0 >> 2), b64_char((b0 & 3) << 4)]
}

/// The unpadded URL-safe base64 encoding of a byte sequence.
pub open spec fn b64_encode(bytes: Seq<u8>) -> Seq<char>
    decreases bytes.len(),
{
    if bytes.len() >= 3 {
        encode3(bytes[0], bytes[1], bytes[2]) + b64_encode(bytes.skip(3))
    } else if bytes.len() == 2 {
        encode2(bytes[0], bytes[1])
    } else if bytes.len() == 1 {
        encode1(bytes[0])
    } else {
        Seq::<char>::empty()
    }
}

/// The three bytes a full group of four sextets decodes to.
pub open spec fn decode4(s0: u8, s1: u8, s2: u8, s3: u8) -> Seq<u8> {
    seq![(s0 << 2) | (s1 >> 4), ((s1 & 15) << 4) | (s2 >> 2), ((s2 & 3) << 6) | s3]
}

/// The two bytes a group of three sextets decodes to.
pub open spec fn decode3(s0: u8, s1: u8, s2: u8) -> Seq<u8> {
    seq![(s0 << 2) | (s1 >> 4), ((s1 & 15) << 4) | (s2 >> 2)]
}

/// The byte a group of two sextets decodes to.
pub open spec fn decode2(s0: u8, s1: u8) -> Seq<u8> {
    seq![(s0 << 2) | (s1 >> 4)]
}

/// The bytes an unpadded base64 character sequence stands for.
/// Meaningful when `b64_valid` holds of the sequence.
pub open spec fn b64_decode(s: Seq<char>) -> Seq<u8>
    decreases s.len(),
{
    if s.len() >= 4 {
        decode4(sextet_val(s[0]), sextet_val(s[1]), sextet_val(s[2]), sextet_val(s[3]))
            + b64_decode(s.skip(4))
    } else if s.len() == 3 {
        decode3(sextet_val(s[0]), sextet_val(s[1]), sextet_val(s[2]))
    } else if s.len() == 2 {
        decode2(sextet_val(s[0]), sextet_val(s[1]))
    } else {
        Seq::<u8>::empty()
    }
}

/// All characters belong to the URL-safe alphabet.
pub open spec fn all_b64_chars(s: Seq<char>) -> bool {
    forall|i: int| 0 <= i < s.len() ==> is_b64_char(#[trigger] s[i])
}

/// An unpadded encoding never has length 1 modulo 4.
pub open spec fn b64_len_ok(n: nat) -> bool {
    n % 4 != 1
}

/// The bits of the last character that fall beyond the final byte are zero.
/// This is what makes the encoding canonical: without it two different
/// strings could decode to the same bytes.
pub open spec fn b64_last_ok(s: Seq<char>) -> bool {
    if s.len() % 4 == 2 {
        sextet_val(s[s.len() - 1]) & 15 == 0
    } else if s.len() % 4 == 3 {
        sextet_val(s[s.len() - 1]) & 3 == 0
    } else {
        true
    }
}

/// The strings the strict decoder accepts: exactly the encoder's outputs.
pub open spec fn b64_valid(s: Seq<char>) -> bool {
    b64_len_ok(s.len()) && all_b64_chars(s) && b64_last_ok(s)
}

/// Length of the unpadded base64 encoding of `n` bytes:
/// four characters for every full three-byte group, then two or three
/// characters for one or two leftover bytes.
pub open spec fn spec_output_size(n: nat) -> nat {
    (n / 3) * 4 + n % 3 + (if n % 3 == 0 {
        0nat
    } else {
        1nat
    })
}

/// Computes the encoded length for an input of `n` bytes without encoding.
pub fn output_size(n: usize) -> (r: usize)
    requires
        n <= usize::MAX / 4,
    ensures
        r == spec_output_size(n as nat),
{
    let rem: usize = n % 3;
    let extra: usize = if rem == 0 {
        0
    } else {
        rem + 1
    };
    (n / 3) * 4 + extra
}

proof fn lemma_bits_enc3(b0: u8, b1: u8, b2: u8)
    by (bit_vector)
    ensures
        b0 >> 2 < 64,
        ((b0 & 3) << 4) | (b1 >> 4) < 64,
        ((b1 & 15) << 2) | (b2 >> 6) < 64,
        b2 & 63 < 64,
        ((b0 >> 2) << 2) | ((((b0 & 3) << 4) | (b1 >> 4)) >> 4) == b0,
        (((((b0 & 3) << 4) | (b1 >> 4)) & 15) << 4) | ((((b1 & 15) << 2) | (b2 >> 6)) >> 2) == b1,
        (((((b1 & 15) << 2) | (b2 >> 6)) & 3) << 6) | (b2 & 63) == b2,
{
}

proof fn lemma_bits_enc2(b0: u8, b1: u8)
    by (bit_vector)
    ensures
        b0 >> 2 < 64,
        ((b0 & 3) << 4) | (b1 >> 4) < 64,
        (b1 & 15) << 2 < 64,
        ((b1 & 15) << 2) & 3 == 0,
        ((b0 >> 2) << 2) | ((((b0 & 3) << 4) | (b1 >> 4)) >> 4) == b0,
        (((((b0 & 3) << 4) | (b1 >> 4)) & 15) << 4) | (((b1 & 15) << 2) >> 2) == b1,
{
}

proof fn lemma_bits_enc1(b0: u8)
    by (bit_vector)
    ensures
        b0 >> 2 < 64,
        (b0 & 3) << 4 < 64,
        ((b0 & 3) << 4) & 15 == 0,
        ((b0 >> 2) << 2) | (((b0 & 3) << 4) >> 4) == b0,
{
}

proof fn lemma_bits_dec4(s0: u8, s1: u8, s2: u8, s3: u8)
    by (bit_vector)
    requires
        s0 < 64,
        s1 < 64,
        s2 < 64,
        s3 < 64,
    ensures
        ((s0 << 2) | (s1 >> 4)) >> 2 == s0,
        (((s0 << 2) | (s1 >> 4)) & 3) << 4 | ((((s1 & 15) << 4) | (s2 >> 2)) >> 4) == s1,
        (((((s1 & 15) << 4) | (s2 >> 2)) & 15) << 2) | ((((s2 & 3) << 6) | s3) >> 6) == s2,
        (((s2 & 3) << 6) | s3) & 63 == s3,
{
}

proof fn lemma_bits_dec3(s0: u8, s1: u8, s2: u8)
    by (bit_vector)
    requires
        s0 < 64,
        s1 < 64,
        s2 < 64,
        s2 & 3 == 0,
    ensures
        ((s0 << 2) | (s1 >> 4)) >> 2 == s0,
        (((s0 << 2) | (s1 >> 4)) & 3) << 4 | ((((s1 & 15) << 4) | (s2 >> 2)) >> 4) == s1,
        ((((s1 & 15) << 4) | (s2 >> 2)) & 15) << 2 == s2,
{
}

proof fn lemma_bits_dec2(s0: u8, s1: u8)
    by (bit_vector)
    requires
        s0 < 64,
        s1 < 64,
        s1 & 15 == 0,
    ensures
        ((s0 << 2) | (s1 >> 4)) >> 2 == s0,
        (((s0 << 2) | (s1 >> 4)) & 3) << 4 == s1,
{
}

/// The encoder's output is a valid encoding of the expected length, every
/// character is in the URL-safe alphabet, and strict decoding inverts it.
pub proof fn lemma_encode_ok(bytes: Seq<u8>)
    ensures
        b64_encode(bytes).len() == spec_output_size(bytes.len()),
        b64_valid(b64_encode(bytes)),
        b64_decode(b64_encode(bytes)) == bytes,
    decreases bytes.len(),
{
    let enc = b64_encode(bytes);
    if bytes.len() >= 3 {
        let b0 = bytes[0];
        let b1 = bytes[1];
        let b2 = bytes[2];
        let g = encode3(b0, b1, b2);
        let rest = bytes.skip(3);
        let enc_rest = b64_encode(rest);
        lemma_encode_ok(rest);
        lemma_bits_enc3(b0, b1, b2);
        lemma_b64_char_roundtrip(b0 >> 2);
        lemma_b64_char_roundtrip(((b0 & 3) << 4) | (b1 >> 4));
        lemma_b64_char_roundtrip(((b1 & 15) << 2) | (b2 >> 6));
        lemma_b64_char_roundtrip(b2 & 63);
        assert(enc == g + enc_rest);
        assert(enc.len() == 4 + enc_rest.len());
        assert(spec_output_size(bytes.len()) == 4 + spec_output_size(rest.len())) by {
            assert(rest.len() == bytes.len() - 3);
        }
        assert forall|i: int| 0 <= i < enc.len() implies is_b64_char(#[trigger] enc[i]) by {
            if i < 4 {
                assert(enc[i] == g[i]);
            } else {
                assert(enc[i] == enc_rest[i - 4]);
            }
        }
        assert(b64_last_ok(enc)) by {
            if enc.len() % 4 == 2 || enc.len() % 4 == 3 {
                assert(enc_rest.len() % 4 == enc.len() % 4);
                assert(enc_rest.len() >= 2);
                assert(enc[enc.len() - 1] == enc_rest[enc_rest.len() - 1]);
            }
        }
        // decoding peels off the same first group
        assert(enc.skip(4) =~= enc_rest);
        assert(b64_decode(enc) == decode4(
            sextet_val(enc[0]),
            sextet_val(enc[1]),
            sextet_val(enc[2]),
            sextet_val(enc[3]),
        ) + b64_decode(enc.skip(4)));
        assert(decode4(b0 >> 2, ((b0 & 3) << 4) | (b1 >> 4), ((b1 & 15) << 2) | (b2 >> 6), b2 & 63)
            =~= seq![b0, b1, b2]);
        assert(b64_decode(enc) =~= bytes) by {
            assert(seq![b0, b1, b2] + rest =~= bytes);
        }
    } else if bytes.len() == 2 {
        let b0 = bytes[0];
        let b1 = bytes[1];
        lemma_bits_enc2(b0, b1);
        lemma_b64_char_roundtrip(b0 >> 2);
        lemma_b64_char_roundtrip(((b0 & 3) << 4) | (b1 >> 4));
        lemma_b64_char_roundtrip((b1 & 15) << 2);
        assert(b64_decode(enc) =~= bytes);
    } else if bytes.len() == 1 {
        let b0 = bytes[0];
        lemma_bits_enc1(b0);
        lemma_b64_char_roundtrip(b0 >> 2);
        lemma_b64_char_roundtrip((b0 & 3) << 4);
        assert(b64_decode(enc) =~= bytes);
    } else {
        assert(bytes =~= Seq::<u8>::empty());
        assert(b64_decode(enc) =~= bytes);
    }
}

/// Strict decoding is injective: re-encoding the decoded bytes gives the
/// original string back, so a valid string is the encoding of exactly the
/// bytes it decodes to.
pub proof fn lemma_decode_ok(s: Seq<char>)
    requires
        b64_valid(s),
    ensures
        b64_encode(b64_decode(s)) == s,
    decreases s.len(),
{
    let dec = b64_decode(s);
    if s.len() >= 4 {
        let s0 = sextet_val(s[0]);
        let s1 = sextet_val(s[1]);
        let s2 = sextet_val(s[2]);
        let s3 = sextet_val(s[3]);
        lemma_sextet_val_roundtrip(s[0]);
        lemma_sextet_val_roundtrip(s[1]);
        lemma_sextet_val_roundtrip(s[2]);
        lemma_sextet_val_roundtrip(s[3]);
        lemma_bits_dec4(s0, s1, s2, s3);
        let rest = s.skip(4);
        assert(b64_valid(rest)) by {
            assert(rest.len() % 4 == s.len() % 4);
            assert forall|i: int| 0 <= i < rest.len() implies is_b64_char(#[trigger] rest[i]) by {
                assert(rest[i] == s[i + 4]);
            }
            if rest.len() % 4 == 2 || rest.len() % 4 == 3 {
                assert(rest.len() >= 2);
                assert(rest[rest.len() - 1] == s[s.len() - 1]);
            }
        }
        lemma_decode_ok(rest);
        let g = decode4(s0, s1, s2, s3);
        assert(dec == g + b64_decode(rest));
        assert(b64_decode(rest).len() >= 0);
        // the first three decoded bytes re-encode to the first four chars
        assert(dec.len() >= 3);
        assert(dec[0] == g[0] && dec[1] == g[1] && dec[2] == g[2]);
        assert(dec.skip(3) =~= b64_decode(rest));
        assert(b64_encode(dec) == encode3(g[0], g[1], g[2]) + b64_encode(b64_decode(rest)));
        assert(encode3(g[0], g[1], g[2]) =~= seq![s[0], s[1], s[2], s[3]]);
        assert(b64_encode(dec) =~= s) by {
            assert(seq![s[0], s[1], s[2], s[3]] + rest =~= s);
        }
    } else if s.len() == 3 {
        let s0 = sextet_val(s[0]);
        let s1 = sextet_val(s[1]);
        let s2 = sextet_val(s[2]);
        lemma_sextet_val_roundtrip(s[0]);
        lemma_sextet_val_roundtrip(s[1]);
        lemma_sextet_val_roundtrip(s[2]);
        assert(s2 & 3 == 0);
        lemma_bits_dec3(s0, s1, s2);
        assert(b64_encode(dec) =~= s);
    } else if s.len() == 2 {
        let s0 = sextet_val(s[0]);
        let s1 = sextet_val(s[1]);
        lemma_sextet_val_roundtrip(s[0]);
        lemma_sextet_val_roundtrip(s[1]);
        assert(s1 & 15 == 0);
        lemma_bits_dec2(s0, s1);
        assert(b64_encode(dec) =~= s);
    } else if s.len() == 1 {
        assert(s.len() % 4 == 1);
    } else {
        assert(s =~= Seq::<char>::empty());
        assert(b64_encode(dec) =~= s);
    }
}

/// The alphabet character for a six-bit value.
fn char_of_sextet(s: u8) -> (c: char)
    requires
        s < 64,
    ensures
        c == b64_char(s),
{
    if s < 26 {
        (s + 65) as char
    } else if s < 52 {
        (s + 71) as char
    } else if s < 62 {
        (s - 4) as char
    } else if s == 62 {
        '-'
    } else {
        '_'
    }
}

/// The six-bit value of an alphabet character, or 255 for any other character.
fn sextet_of_char(c: char) -> (r: u8)
    ensures
        is_b64_char(c) ==> r == sextet_val(c) && r < 64,
        !is_b64_char(c) ==> r == 255,
{
    proof {
        if is_b64_char(c) {
            lemma_sextet_val_roundtrip(c);
        }
    }
    let u = c as u32;
    if 65 <= u && u <= 90 {
        (u - 65) as u8
    } else if 97 <= u && u <= 122 {
        (u - 71) as u8
    } else if 48 <= u && u <= 57 {
        (u + 4) as u8
    } else if c == '-' {
        62
    } else if c == '_' {
        63
    } else {
        255
    }
}

/// Encodes bytes as an unpadded URL-safe base64 string.
pub fn encode(input: &[u8]) -> (r: String)
    ensures
        r@ == b64_encode(input@),
{
    let ghost all = input@;
    let n: usize = input.len();
    let mut out = String::new();
    let mut i: usize = 0;
    proof {
        assert(all.skip(0) =~= all);
        assert(out@ + b64_encode(all) =~= b64_encode(all));
    }
    while n - i >= 3
        invariant
            n == all.len(),
            input@ == all,
            i % 3 == 0,
            i <= n,
            b64_encode(all) == out@ + b64_encode(all.skip(i as int)),
        decreases n - i,
    {
        let b0 = input[i];
        let b1 = input[i + 1];
        let b2 = input[i + 2];
        proof {
            lemma_bits_enc3(b0, b1, b2);
            assert(all.skip(i as int).len() >= 3);
            assert(all.skip(i as int)[0] == b0);
            assert(all.skip(i as int)[1] == b1);
            assert(all.skip(i as int)[2] == b2);
            assert(all.skip(i as int).skip(3) =~= all.skip(i + 3));
        }
        push_char(&mut out, char_of_sextet(b0 >> 2));
        push_char(&mut out, char_of_sextet(((b0 & 3) << 4) | (b1 >> 4)));
        push_char(&mut out, char_of_sextet(((b1 & 15) << 2) | (b2 >> 6)));
        push_char(&mut out, char_of_sextet(b2 & 63));
        proof {
            assert(b64_encode(all.skip(i as int)) == encode3(b0, b1, b2) + b64_encode(
                all.skip(i + 3),
            ));
        }
        i = i + 3;
    }
    proof {
        assert(all.skip(i as int).len() == n - i < 3);
    }
    if n - i == 2 {
        let b0 = input[i];
        let b1 = input[i + 1];
        proof {
            lemma_bits_enc2(b0, b1);
            assert(all.skip(i as int) =~= seq![b0, b1]);
        }
        push_char(&mut out, char_of_sextet(b0 >> 2));
        push_char(&mut out, char_of_sextet(((b0 & 3) << 4) | (b1 >> 4)));
        push_char(&mut out, char_of_sextet((b1 & 15) << 2));
    } else if n - i == 1 {
        let b0 = input[i];
        proof {
            lemma_bits_enc1(b0);
            assert(all.skip(i as int) =~= seq![b0]);
        }
        push_char(&mut out, char_of_sextet(b0 >> 2));
        push_char(&mut out, char_of_sextet((b0 & 3) << 4));
    } else {
        proof {
            assert(all.skip(i as int) =~= Seq::<u8>::empty());
        }
    }
    proof {
        assert(out@ =~= b64_encode(all));
    }
    out
}

/// Decodes an unpadded URL-safe base64 string, strictly: the accepted
/// strings are exactly the encoder's outputs, and the result identifies
/// the first offending character otherwise.
pub fn decode(s: &str) -> (r: Result<Vec<u8>, DecodeError>)
    ensures
        r is Ok <==> b64_valid(s@),
        match r {
            Ok(b) => b@ == b64_decode(s@),
            Err(e) => match e {
                DecodeError::InvalidLength => !b64_len_ok(s@.len() as nat),
                DecodeError::InvalidByte(i, c) => {
                    &&& b64_len_ok(s@.len() as nat)
                    &&& 0 <= i < s@.len()
                    &&& s@[i as int] == c
                    &&& !is_b64_char(c)
                    &&& forall|j: int| 0 <= j < i ==> is_b64_char(#[trigger] s@[j])
                },
                DecodeError::InvalidLastSymbol(i, c) => {
                    &&& b64_len_ok(s@.len() as nat)
                    &&& all_b64_chars(s@)
                    &&& !b64_last_ok(s@)
                    &&& i == s@.len() - 1
                    &&& s@[i as int] == c
                },
            },
        },
{
    let n: usize = s.unicode_len();
    if n % 4 == 1 {
        return Err(DecodeError::InvalidLength);
    }
    let mut vals: Vec<u8> = Vec::new();
    let mut i: usize = 0;
    while i < n
        invariant
            n == s@.len(),
            n % 4 != 1,
            i <= n,
            vals@.len() == i,
            forall|j: int| 0 <= j < i ==> is_b64_char(#[trigger] s@[j]),
            forall|j: int|
                0 <= j < i ==> #[trigger] vals@[j] == sextet_val(s@[j]) && vals@[j] < 64,
        decreases n - i,
    {
        let c = s.get_char(i);
        let v = sextet_of_char(c);
        if v == 255 {
            proof {
                assert(!all_b64_chars(s@));
            }
            return Err(DecodeError::InvalidByte(i, c));
        }
        vals.push(v);
        i = i + 1;
    }
    if n % 4 == 2 {
        if vals[n - 1] & 15 != 0 {
            return Err(DecodeError::InvalidLastSymbol(n - 1, s.get_char(n - 1)));
        }
    } else if n % 4 == 3 {
        if vals[n - 1] & 3 != 0 {
            return Err(DecodeError::InvalidLastSymbol(n - 1, s.get_char(n - 1)));
        }
    }
    proof {
        assert(b64_valid(s@));
    }
    let mut out: Vec<u8> = Vec::new();
    let mut k: usize = 0;
    proof {
        assert(s@.skip(0) =~= s@);
        assert(out@ + b64_decode(s@) =~= b64_decode(s@));
    }
    while n - k >= 4
        invariant
            n == s@.len(),
            k % 4 == 0,
            k <= n,
            vals@.len() == n,
            forall|j: int| 0 <= j < n ==> #[trigger] vals@[j] == sextet_val(s@[j]),
            b64_decode(s@) == out@ + b64_decode(s@.skip(k as int)),
        decreases n - k,
    {
        let s0 = vals[k];
        let s1 = vals[k + 1];
        let s2 = vals[k + 2];
        let s3 = vals[k + 3];
        proof {
            assert(s@.skip(k as int).len() >= 4);
            assert(s@.skip(k as int)[0] == s@[k as int]);
            assert(s@.skip(k as int)[1] == s@[k + 1]);
            assert(s@.skip(k as int)[2] == s@[k + 2]);
            assert(s@.skip(k as int)[3] == s@[k + 3]);
            assert(s@.skip(k as int).skip(4) =~= s@.skip(k + 4));
            assert(b64_decode(s@.skip(k as int)) == decode4(s0, s1, s2, s3) + b64_decode(
                s@.skip(k + 4),
            ));
        }
        out.push((s0 << 2) | (s1 >> 4));
        out.push(((s1 & 15) << 4) | (s2 >> 2));
        out.push(((s2 & 3) << 6) | s3);
        k = k + 4;
    }
    if n - k == 3 {
        let s0 = vals[k];
        let s1 = vals[k + 1];
        let s2 = vals[k + 2];
        proof {
            assert(s@.skip(k as int) =~= seq![s@[k as int], s@[k + 1], s@[k + 2]]);
        }
        out.push((s0 << 2) | (s1 >> 4));
        out.push(((s1 & 15) << 4) | (s2 >> 2));
    } else if n - k == 2 {
        let s0 = vals[k];
        let s1 = vals[k + 1];
        proof {
            assert(s@.skip(k as int) =~= seq![s@[k as int], s@[k + 1]]);
        }
        out.push((s0 << 2) | (s1 >> 4));
    } else {
        proof {
            assert(k == n);
            assert(s@.skip(k as int) =~= Seq::<char>::empty());
        }
    }
    proof {
        assert(out@ =~= b64_decode(s@));
    }
    Ok(out)
}

} // verus!
