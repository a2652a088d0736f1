//! The compact timestamp codec.
//!
//! A point in time is carried as seconds since the Unix epoch, offset by a
//! fixed legacy epoch for wire compatibility with a long-running
//! deployment. The offset difference is written as a big-endian integer
//! with leading zero bytes stripped, then base64-encoded, so recent
//! timestamps need only a few characters.

use vstd::prelude::*;
use vstd::slice::slice_subrange;

use crate::base64::{b64_decode, b64_encode, b64_valid, decode, encode, lemma_encode_ok};

verus! {

/// Seconds between the Unix epoch and the legacy reference epoch
/// (2011-01-01T00:00:00Z). Subtracted before encoding, added back after
/// decoding, so tokens stay interchangeable with the legacy deployment.
pub const LEGACY_EPOCH: u64 = 1293840000;

/// The eight big-endian bytes of a 64-bit value.
pub open spec fn spec_be_bytes(x: u64) -> Seq<u8> {
    seq![
        (x >> 56) as u8,
        (x >> 48) as u8,
        (x >> 40) as u8,
        (x >> 32) as u8,
        (x >> 24) as u8,
        (x >> 16) as u8,
        (x >> 8) as u8,
        x as u8,
    ]
}

/// The bytes with leading zeros removed.
pub open spec fn spec_strip_zeros(s: Seq<u8>) -> Seq<u8>
    decreases s.len(),
{
    if s.len() > 0 && s[0] == 0 {
        spec_strip_zeros(s.drop_first())
    } else {
        s
    }
}

/// The value of a big-endian byte string.
pub open spec fn spec_be_val(s: Seq<u8>) -> nat
    decreases s.len(),
{
    if s.len() == 0 {
        0
    } else {
        (spec_be_val(s.drop_last()) * 256 + s.last()) as nat
    }
}

/// 256 to the power `n`: the number of values `n` bytes can carry.
pub open spec fn pow256(n: nat) -> nat
    decreases n,
{
    if n == 0 {
        1
    } else {
        256 * pow256((n - 1) as nat)
    }
}

/// The characters encoding a timestamp `ts` (seconds since the Unix
/// epoch, at or after the legacy epoch).
pub open spec fn spec_encoded_timestamp(ts: u64) -> Seq<char>
    recommends
        ts >= LEGACY_EPOCH,
{
    b64_encode(spec_strip_zeros(spec_be_bytes((ts - LEGACY_EPOCH) as u64)))
}

/// Whether a character string decodes to a timestamp: valid base64, at
/// most eight decoded bytes, and a value that fits once the legacy epoch
/// is added back.
pub open spec fn spec_decode_timestamp_ok(s: Seq<char>) -> bool {
    &&& b64_valid(s)
    &&& b64_decode(s).len() <= 8
    &&& spec_be_val(b64_decode(s)) + LEGACY_EPOCH <= u64::MAX
}

/// The timestamp a character string decodes to.
pub open spec fn spec_decoded_timestamp(s: Seq<char>) -> nat {
    (spec_be_val(b64_decode(s)) + LEGACY_EPOCH) as nat
}

/// Stripping leading zeros takes the suffix that starts at the first
/// nonzero byte.
proof fn lemma_strip_zeros_skip(s: Seq<u8>, z: int)
    requires
        0 <= z <= s.len(),
        forall|j: int| 0 <= j < z ==> s[j] == 0,
        z < s.len() ==> s[z] != 0,
    ensures
        spec_strip_zeros(s) == s.skip(z),
    decreases z,
{
    if z == 0 {
        assert(s.skip(0) =~= s);
    } else {
        assert(s.len() > 0 && s[0] == 0);
        lemma_strip_zeros_skip(s.drop_first(), z - 1);
        assert(s.drop_first().skip(z - 1) =~= s.skip(z));
    }
}

/// Stripping never lengthens the byte string.
proof fn lemma_strip_zeros_len(s: Seq<u8>)
    ensures
        spec_strip_zeros(s).len() <= s.len(),
    decreases s.len(),
{
    if s.len() > 0 && s[0] == 0 {
        lemma_strip_zeros_len(s.drop_first());
    }
}

/// Dropping one leading zero byte keeps the value.
proof fn lemma_be_val_drop_zero(s: Seq<u8>)
    requires
        s.len() > 0,
        s[0] == 0,
    ensures
        spec_be_val(s.drop_first()) == spec_be_val(s),
    decreases s.len(),
{
    if s.len() == 1 {
        assert(s.drop_first() =~= Seq::<u8>::empty());
        assert(s.drop_last() =~= Seq::<u8>::empty());
        assert(spec_be_val(s) == spec_be_val(s.drop_last()) * 256 + s.last());
    } else {
        assert(s.drop_last().len() > 0);
        assert(s.drop_last()[0] == 0);
        lemma_be_val_drop_zero(s.drop_last());
        assert(s.drop_last().drop_first() =~= s.drop_first().drop_last());
        assert(s.drop_first().last() == s.last());
        assert(s.drop_first().len() > 0);
        assert(spec_be_val(s.drop_first()) == spec_be_val(s.drop_first().drop_last()) * 256
            + s.drop_first().last());
        assert(spec_be_val(s) == spec_be_val(s.drop_last()) * 256 + s.last());
    }
}

/// Leading zeros do not change the value of a big-endian byte string.
proof fn lemma_be_val_strip(s: Seq<u8>)
    ensures
        spec_be_val(spec_strip_zeros(s)) == spec_be_val(s),
    decreases s.len(),
{
    if s.len() > 0 && s[0] == 0 {
        lemma_be_val_drop_zero(s);
        lemma_be_val_strip(s.drop_first());
    }
}

/// A big-endian byte string of `n` bytes holds a value below 256^n.
proof fn lemma_be_val_bound(s: Seq<u8>)
    ensures
        spec_be_val(s) < pow256(s.len()),
    decreases s.len(),
{
    if s.len() > 0 {
        lemma_be_val_bound(s.drop_last());
        assert(spec_be_val(s.drop_last()) * 256 + s.last() < pow256(s.len())) by (nonlinear_arith)
            requires
                spec_be_val(s.drop_last()) < pow256((s.len() - 1) as nat),
                s.last() < 256,
                pow256(s.len()) == 256 * pow256((s.len() - 1) as nat),
        {}
    }
}

/// The value of the eight big-endian bytes of `x` is `x` itself.
proof fn lemma_be_val_of_bytes(x: u64)
    ensures
        spec_be_val(spec_be_bytes(x)) == x,
{
    let b0 = (x >> 56) as u8;
    let b1 = (x >> 48) as u8;
    let b2 = (x >> 40) as u8;
    let b3 = (x >> 32) as u8;
    let b4 = (x >> 24) as u8;
    let b5 = (x >> 16) as u8;
    let b6 = (x >> 8) as u8;
    let b7 = x as u8;
    let s = spec_be_bytes(x);
    let s7 = seq![b0, b1, b2, b3, b4, b5, b6];
    let s6 = seq![b0, b1, b2, b3, b4, b5];
    let s5 = seq![b0, b1, b2, b3, b4];
    let s4 = seq![b0, b1, b2, b3];
    let s3 = seq![b0, b1, b2];
    let s2 = seq![b0, b1];
    let s1 = seq![b0];
    assert(s.drop_last() =~= s7);
    assert(s7.drop_last() =~= s6);
    assert(s6.drop_last() =~= s5);
    assert(s5.drop_last() =~= s4);
    assert(s4.drop_last() =~= s3);
    assert(s3.drop_last() =~= s2);
    assert(s2.drop_last() =~= s1);
    assert(s1.drop_last() =~= Seq::<u8>::empty());
    assert(spec_be_val(Seq::<u8>::empty()) == 0);
    assert(s1.last() == b0 && s2.last() == b1 && s3.last() == b2 && s4.last() == b3);
    assert(s5.last() == b4 && s6.last() == b5 && s7.last() == b6 && s.last() == b7);
    assert((((x >> 56) as u8) as u64) == x >> 56) by (bit_vector);
    assert((x >> 56) * 256 + (((x >> 48) as u8) as u64) == x >> 48) by (bit_vector);
    assert((x >> 48) * 256 + (((x >> 40) as u8) as u64) == x >> 40) by (bit_vector);
    assert((x >> 40) * 256 + (((x >> 32) as u8) as u64) == x >> 32) by (bit_vector);
    assert((x >> 32) * 256 + (((x >> 24) as u8) as u64) == x >> 24) by (bit_vector);
    assert((x >> 24) * 256 + (((x >> 16) as u8) as u64) == x >> 16) by (bit_vector);
    assert((x >> 16) * 256 + (((x >> 8) as u8) as u64) == x >> 8) by (bit_vector);
    assert((x >> 8) * 256 + ((x as u8) as u64) == x) by (bit_vector);
    assert(spec_be_val(s1) == x >> 56);
    assert(spec_be_val(s2) == x >> 48);
    assert(spec_be_val(s3) == x >> 40);
    assert(spec_be_val(s4) == x >> 32);
    assert(spec_be_val(s5) == x >> 24);
    assert(spec_be_val(s6) == x >> 16);
    assert(spec_be_val(s7) == x >> 8);
    assert(spec_be_val(s) == x);
}

/// Encodes a timestamp (seconds since the Unix epoch, at or after the
/// legacy epoch) into its compact base64 form.
pub fn encode_timestamp(ts: u64) -> (r: String)
    requires
        ts >= LEGACY_EPOCH,
    ensures
        r@ == spec_encoded_timestamp(ts),
{
    let delta: u64 = ts - LEGACY_EPOCH;
    let mut bytes: Vec<u8> = Vec::new();
    bytes.push((delta >> 56) as u8);
    bytes.push((delta >> 48) as u8);
    bytes.push((delta >> 40) as u8);
    bytes.push((delta >> 32) as u8);
    bytes.push((delta >> 24) as u8);
    bytes.push((delta >> 16) as u8);
    bytes.push((delta >> 8) as u8);
    bytes.push(delta as u8);
    proof {
        assert(bytes@ =~= spec_be_bytes(delta));
    }
    let mut z: usize = 0;
    while z < 8 && bytes[z] == 0
        invariant
            bytes@ == spec_be_bytes(delta),
            bytes@.len() == 8,
            z <= 8,
            forall|j: int| 0 <= j < z ==> bytes@[j] == 0,
        decreases 8 - z,
    {
        z = z + 1;
    }
    proof {
        lemma_strip_zeros_skip(bytes@, z as int);
        assert(bytes@.subrange(z as int, 8) =~= bytes@.skip(z as int));
    }
    encode(slice_subrange(bytes.as_slice(), z, 8))
}

/// Decodes the compact base64 form back to a timestamp: fails on invalid
/// base64, on more than eight bytes of payload, and on a value that
/// overflows once the legacy epoch is added back.
pub fn decode_timestamp(s: &str) -> (r: Option<u64>)
    ensures
        r is Some <==> spec_decode_timestamp_ok(s@),
        r matches Some(t) ==> t == spec_decoded_timestamp(s@),
{
    let bytes = match decode(s) {
        Ok(b) => b,
        Err(_) => {
            return None;
        },
    };
    let n = bytes.len();
    if n > 8 {
        return None;
    }
    let mut val: u64 = 0;
    let mut i: usize = 0;
    proof {
        assert(bytes@.take(0) =~= Seq::<u8>::empty());
    }
    while i < n
        invariant
            n == bytes@.len() <= 8,
            i <= n,
            val == spec_be_val(bytes@.take(i as int)),
        decreases n - i,
    {
        proof {
            assert(bytes@.take(i + 1).drop_last() =~= bytes@.take(i as int));
            assert(bytes@.take(i + 1).last() == bytes@[i as int]);
            lemma_be_val_bound(bytes@.take(i as int));
            assert(pow256(7) == 72057594037927936) by {
                reveal_with_fuel(pow256, 8);
            }
            lemma_pow256_mono(i as nat, 7);
            assert(val * 256 + bytes@[i as int] < pow256(7) * 256) by (nonlinear_arith)
                requires
                    val < pow256(7),
                    bytes@[i as int] < 256,
            {}
        }
        val = val * 256 + (bytes[i] as u64);
        i = i + 1;
    }
    proof {
        assert(bytes@.take(n as int) =~= bytes@);
    }
    if val > u64::MAX - LEGACY_EPOCH {
        return None;
    }
    Some(val + LEGACY_EPOCH)
}

/// 256^m divides into 256^n for m at most n.
proof fn lemma_pow256_mono(m: nat, n: nat)
    requires
        m <= n,
    ensures
        pow256(m) <= pow256(n),
    decreases n,
{
    if m < n {
        lemma_pow256_mono(m, (n - 1) as nat);
        assert(pow256(n) == 256 * pow256((n - 1) as nat));
        assert(pow256((n - 1) as nat) <= 256 * pow256((n - 1) as nat)) by (nonlinear_arith)
            requires
                pow256((n - 1) as nat) >= 0,
        {}
    }
}

/// Encoding a timestamp and decoding the result yields the timestamp
/// back, exactly, for every second at or after the legacy epoch.
pub proof fn lemma_timestamp_round_trip(ts: u64)
    requires
        ts >= LEGACY_EPOCH,
    ensures
        spec_decode_timestamp_ok(spec_encoded_timestamp(ts)),
        spec_decoded_timestamp(spec_encoded_timestamp(ts)) == ts,
{
    let delta = (ts - LEGACY_EPOCH) as u64;
    let bytes = spec_be_bytes(delta);
    let stripped = spec_strip_zeros(bytes);
    lemma_encode_ok(stripped);
    lemma_strip_zeros_len(bytes);
    lemma_be_val_strip(bytes);
    lemma_be_val_of_bytes(delta);
}

} // verus!
