use itsdangerous::base64::{decode, encode, output_size, DecodeError};
use itsdangerous::algorithm::{HMACAlgorithm, NoneAlgorithm};

#[test]
fn test_base64_sized_encoder() {
    fn gen_string(n: usize) -> Vec<u8> {
        vec![b'a'; n]
    }

    // Sanity check length calculation.
    assert_eq!(output_size(1), 2);
    assert_eq!(encode(&gen_string(1)).as_bytes(), &[89, 81]);
    assert_eq!(encode(&gen_string(2)).as_bytes(), &[89, 87, 69]);
    assert_eq!(encode(&gen_string(3)).as_bytes(), &[89, 87, 70, 104]);
    assert_eq!(encode(&gen_string(4)).as_bytes(), &[89, 87, 70, 104, 89, 81]);
    assert_eq!(
        encode(&gen_string(5)).as_bytes(),
        &[89, 87, 70, 104, 89, 87, 69]
    );
    assert_eq!(
        encode(&gen_string(6)).as_bytes(),
        &[89, 87, 70, 104, 89, 87, 70, 104]
    );
    assert_eq!(
        encode(&gen_string(7)).as_bytes(),
        &[89, 87, 70, 104, 89, 87, 70, 104, 89, 81]
    );
    assert_eq!(
        encode(&gen_string(8)).as_bytes(),
        &[89, 87, 70, 104, 89, 87, 70, 104, 89, 87, 69]
    );
    assert_eq!(
        encode(&gen_string(9)).as_bytes(),
        &[89, 87, 70, 104, 89, 87, 70, 104, 89, 87, 70, 104]
    );
    assert_eq!(
        encode(&gen_string(10)).as_bytes(),
        &[89, 87, 70, 104, 89, 87, 70, 104, 89, 87, 70, 104, 89, 81]
    );
    assert_eq!(
        encode(&gen_string(11)).as_bytes(),
        &[89, 87, 70, 104, 89, 87, 70, 104, 89, 87, 70, 104, 89, 87, 69]
    );
    assert_eq!(
        encode(&gen_string(12)).as_bytes(),
        &[89, 87, 70, 104, 89, 87, 70, 104, 89, 87, 70, 104, 89, 87, 70, 104]
    );
    assert_eq!(
        encode(&gen_string(13)).as_bytes(),
        &[89, 87, 70, 104, 89, 87, 70, 104, 89, 87, 70, 104, 89, 87, 70, 104, 89, 81]
    );
    assert_eq!(
        encode(&gen_string(14)).as_bytes(),
        &[89, 87, 70, 104, 89, 87, 70, 104, 89, 87, 70, 104, 89, 87, 70, 104, 89, 87, 69]
    );
    assert_eq!(
        encode(&gen_string(15)).as_bytes(),
        &[89, 87, 70, 104, 89, 87, 70, 104, 89, 87, 70, 104, 89, 87, 70, 104, 89, 87, 70, 104]
    );
}

#[test]
fn test_base64_known_strings() {
    assert_eq!(encode(b"hello world"), "aGVsbG8gd29ybGQ");
    assert_eq!(encode(b""), "");
    assert_eq!(decode("aGVsbG8gd29ybGQ").unwrap(), b"hello world");
    assert_eq!(decode("").unwrap(), Vec::<u8>::new());
}

#[test]
fn test_base64_size_law_round_trip() {
    // For every input length in 0..64: the encoded length matches the
    // size formula, and decoding the encoding gives the bytes back.
    let mut state: u64 = 0x2545F4914F6CDD1D;
    for n in 0..64usize {
        let mut bytes = Vec::with_capacity(n);
        for _ in 0..n {
            // a small xorshift generator keeps the inputs varied
            state ^= state << 13;
            state ^= state >> 7;
            state ^= state << 17;
            bytes.push((state & 0xFF) as u8);
        }
        let encoded = encode(&bytes);
        assert_eq!(encoded.chars().count(), output_size(n));
        assert_eq!(decode(&encoded).unwrap(), bytes);
    }
}

#[test]
fn test_base64_rejects_bad_input() {
    // A character outside the alphabet, with its position.
    assert!(matches!(
        decode("ab!c"),
        Err(DecodeError::InvalidByte(2, '!'))
    ));
    // A length that unpadded encoding can never produce.
    assert!(matches!(decode("abcde"), Err(DecodeError::InvalidLength)));
    // Nonzero trailing bits in the final character.
    assert!(matches!(
        decode("aGVsbG9h"),
        Ok(_)
    ));
    assert!(matches!(
        decode("ab"),
        Err(DecodeError::InvalidLastSymbol(1, 'b'))
    ));
    // Padding characters are not part of the unpadded format.
    assert!(matches!(
        decode("aGVsbG8="),
        Err(DecodeError::InvalidByte(7, '='))
    ));
}

#[test]
fn test_hmac_algorithm() {
    let signature = HMACAlgorithm::get_signature(b"foo", b"bar");
    let signature2 = HMACAlgorithm::get_signer(b"foo").input_chained(b"bar").sign();

    assert!(signature == signature2);
    // This is tested against the reference HMAC implementation.
    assert_eq!(signature.base64_encode(), "RrTsWGEXFU2s1J1mTl1j_ciO-1E");
}

#[test]
fn test_none_algorithm() {
    let signature = NoneAlgorithm::get_signature(b"foo", b"bar");
    let signature2 = NoneAlgorithm::get_signer(b"foo").input_chained(b"bar").sign();

    assert!(signature == signature2);
    assert_eq!(signature.base64_encode(), "");
}
