use itsdangerous::{
    default_builder, serializer_with_signer, BadSignature, BadTimedSignature, PayloadError,
    Separator, URLSafeEncoding,
};

#[test]
fn test_separator_not_found_error() {
    let signer = default_builder("hello").build();
    let err = signer.unsign("no separator here").unwrap_err();
    assert!(matches!(err, BadSignature::SeparatorNotFound { .. }));
    assert_eq!(err.description(), "separator not found");
}

#[test]
fn test_signature_mismatch_error() {
    let signer = default_builder("hello").build();
    let err = signer.unsign("value.AAAA").unwrap_err();
    match &err {
        BadSignature::SignatureMismatch { signature, value } => {
            assert_eq!(signature.as_str(), "AAAA");
            assert_eq!(value.as_str(), "value");
        }
        _ => panic!("wrong variant"),
    }
    assert_eq!(err.description(), "signature does not match");
}

#[test]
fn test_payload_invalid_base64() {
    let signer = default_builder("hello").build();
    let serializer = serializer_with_signer(default_builder("hello").build(), URLSafeEncoding);
    // well signed, but the payload is not base64 text
    let token = signer.sign("not*base64");
    let err = serializer.unsign(&token).unwrap_err();
    assert!(matches!(
        err,
        BadSignature::PayloadInvalid { error: PayloadError::Base64(_), .. }
    ));
    assert_eq!(err.description(), "payload invalid");
}

#[test]
fn test_payload_invalid_utf8() {
    let signer = default_builder("hello").build();
    let serializer = serializer_with_signer(default_builder("hello").build(), URLSafeEncoding);
    // "_w" is the base64 form of the lone byte 0xFF, which is not UTF-8
    let token = signer.sign("_w");
    let err = serializer.unsign(&token).unwrap_err();
    assert!(matches!(
        err,
        BadSignature::PayloadInvalid { error: PayloadError::Utf8Error, .. }
    ));
}

#[test]
fn test_invalid_separator_error() {
    let err = Separator::new('=').unwrap_err();
    assert_eq!(err.description(), "invalid separator");
}

#[test]
fn test_timed_error_descriptions() {
    let timed = default_builder("hello").build().into_timestamp_signer();
    let missing = timed
        .unsign(&default_builder("hello").build().sign("bare"))
        .unwrap_err();
    assert_eq!(missing.description(), "timestamp missing");
    let not_found = timed.unsign("nothing").unwrap_err();
    assert!(matches!(not_found, BadTimedSignature::SeparatorNotFound { .. }));
    assert_eq!(not_found.description(), "separator not found");
}
