use itsdangerous::{
    default_builder, in_alphabet, BadSignature, DefaultSigner, Separator, SignerBuilder,
};
use itsdangerous::algorithm::AlgorithmKind;
use itsdangerous::key_derivation::DerivationKind;

#[test]
fn test_signature_basic() {
    let signer = default_builder("hello").build();
    let signature = signer.sign("this is a test");
    // This is a compatibility test against the reference deployment.
    assert_eq!(signature, "this is a test.hgGT0Zoara4L13FX3_xm-xmfa_0");
    assert_eq!(
        signer
            .unsign("this is a test.hgGT0Zoara4L13FX3_xm-xmfa_0")
            .unwrap(),
        "this is a test"
    );
}

#[test]
fn signer_test_default_alias() {
    let _: DefaultSigner = default_builder("hello").build();
}

#[test]
fn test_non_default_separator() {
    let signer = default_builder("hello")
        .with_separator(Separator::new('!').unwrap())
        .build();
    let signature = signer.sign("this is a test");
    assert_eq!(signature, "this is a test!hgGT0Zoara4L13FX3_xm-xmfa_0");
}

#[test]
fn test_default_separator() {
    assert!(!in_alphabet(Separator::default().as_char()));
}

#[test]
fn test_separator_rejects_invalid_char() {
    assert!(Separator::new('a').is_err());
}

#[test]
fn test_unsign_edge_cases() {
    let signer = default_builder("hello").build();

    assert!(signer.unsign("").is_err());
    assert!(signer.unsign("fish").is_err());
    assert!(signer.unsign(".").is_err());
    assert!(signer.unsign("w.").is_err());
    assert!(signer.unsign(".w").is_err());
}

#[test]
fn test_const_default() {
    let built: Separator = Separator::default();
    let separator: Separator = Default::default();
    assert_eq!(built, separator);
}

#[test]
fn test_round_trip_many_values() {
    // Round trip: unsign(sign(v, k)) == Ok(v), also for values holding
    // the separator, for an empty value, and for non-ASCII text.
    let values = [
        "",
        "a",
        "hello world",
        "with.dots.inside",
        ".",
        "trailing.",
        ".leading",
        "ünïcødé ✓ text",
        "spaces and  tabs\t",
    ];
    for key in ["k1", "another key", ""] {
        let signer = default_builder(key).build();
        for value in values {
            let token = signer.sign(value);
            assert_eq!(signer.unsign(&token).unwrap(), value);
        }
    }
}

#[test]
fn test_round_trip_other_algorithms() {
    // The round trip holds for every algorithm and derivation in the
    // closed set, and with a custom salt and separator.
    let algorithms = [AlgorithmKind::Null, AlgorithmKind::HmacSha1];
    let derivations = [
        DerivationKind::Concat,
        DerivationKind::DjangoConcat,
        DerivationKind::Hmac,
    ];
    for algorithm in algorithms {
        for derivation in derivations {
            let signer = SignerBuilder::new("secret", algorithm, derivation)
                .with_salt("salt of this test")
                .with_separator(Separator::new('!').unwrap())
                .build();
            let token = signer.sign("payload!with!separators");
            assert_eq!(signer.unsign(&token).unwrap(), "payload!with!separators");
        }
    }
}

#[test]
fn test_tamper_detection() {
    // Flipping any single character in the value or signature portion of
    // a token makes unsigning fail with a signature mismatch.
    let signer = default_builder("hello").build();
    let token = signer.sign("this is a test");
    let chars: Vec<char> = token.chars().collect();
    let sep_index = token.rfind('.').unwrap();
    for i in 0..chars.len() {
        if i == sep_index {
            continue; // the separator itself is framing, not value or signature
        }
        let replacement = if chars[i] == 'x' { 'y' } else { 'x' };
        let mut mutated = chars.clone();
        mutated[i] = replacement;
        let mutated: String = mutated.into_iter().collect();
        let result = signer.unsign(&mutated);
        assert!(
            matches!(result, Err(BadSignature::SignatureMismatch { .. })),
            "mutation at {} was not detected",
            i
        );
    }
}

#[test]
fn test_wrong_key_rejected() {
    let signer = default_builder("hello").build();
    let other = default_builder("goodbye").build();
    let token = signer.sign("this is a test");
    assert!(matches!(
        other.unsign(&token),
        Err(BadSignature::SignatureMismatch { .. })
    ));
}

#[test]
fn test_separator_alphabet_exhaustive() {
    // Separator::new fails for every character of the url-safe base64
    // alphabet (padding included) and succeeds for every other one.
    let alphabet = "abcdefghijklmnopqrstuvwxyzABCDEFGHIJKLMNOPQRSTUVWXYZ0123456789-_=";
    for c in alphabet.chars() {
        assert!(Separator::new(c).is_err(), "{:?} wrongly accepted", c);
    }
    for c in ['.', '!', ':', ' ', '~', '#', '\n', 'é', '✓'] {
        assert!(Separator::new(c).is_ok(), "{:?} wrongly rejected", c);
    }
}
