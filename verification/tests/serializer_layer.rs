use std::time::{SystemTime, UNIX_EPOCH};

use itsdangerous::{
    default_builder, serializer_with_signer, timed_serializer_with_signer, BadSignature,
    BadTimedSignature, NullEncoding, PayloadError, Separator, URLSafeEncoding,
    UnverifiedTimedValue, UnverifiedValue,
};

fn unix_seconds_now() -> u64 {
    SystemTime::now()
        .duration_since(UNIX_EPOCH)
        .unwrap()
        .as_secs()
}

#[test]
fn test_null_encoding() {
    let s = "hello world".to_owned();
    let encoding = NullEncoding;
    assert_eq!(encoding.encode(s.clone()), s);
    assert_eq!(encoding.decode(s.clone()).unwrap(), s);
}

#[test]
fn test_url_safe_encoding() {
    let s = "hello world".to_owned();
    let encoded = "aGVsbG8gd29ybGQ".to_owned();
    let encoding = URLSafeEncoding;
    assert_eq!(encoding.encode(s.clone()), encoded);
    assert_eq!(encoding.decode(encoded).unwrap(), s);
}

#[test]
fn test_sign_null_encoding() {
    let signer = default_builder("hello world").build();
    let serializer = serializer_with_signer(signer, NullEncoding);
    let signed = "[1,2,3].bq_ST5hV4J35lKdovyr_ng-ZIxU";
    assert_eq!(serializer.sign("[1,2,3]"), signed);
    assert_eq!(serializer.unsign(signed).unwrap(), "[1,2,3]");
}

#[test]
fn test_unsign_unverified_good_signature() {
    let signer = default_builder("hello world").build();
    let signed = "[1,2,3].bq_ST5hV4J35lKdovyr_ng-ZIxU";
    let unverified_value =
        UnverifiedValue::from_str(signer.separator(), NullEncoding, signed).unwrap();
    let expected = "[1,2,3]";
    assert_eq!(unverified_value.unverified_value().as_str(), expected);
    assert_eq!(unverified_value.verify(&signer).unwrap(), expected);
}

#[test]
fn test_unsign_unverified_bad_signature() {
    let signer = default_builder("not the right key lol").build();
    let signed = "[1,2,3].bq_ST5hV4J35lKdovyr_ng-ZIxU";
    let unverified_value =
        UnverifiedValue::from_str(signer.separator(), NullEncoding, signed).unwrap();
    let expected = "[1,2,3]";
    assert_eq!(unverified_value.unverified_value().as_str(), expected);
    assert!(unverified_value.verify(&signer).is_err());
}

#[test]
fn test_sign_url_safe_encoding() {
    let signer = default_builder("hello world").build();
    let serializer = serializer_with_signer(signer, URLSafeEncoding);
    let signed = "WzEsMiwzXQ.ohh92zNcvFVoWHrPf5uumLp6mbQ";
    assert_eq!(serializer.sign("[1,2,3]"), signed);
    assert_eq!(serializer.unsign(signed).unwrap(), "[1,2,3]");
}

#[test]
fn test_timed_sign_null_encoding() {
    let signer = default_builder("hello world").build().into_timestamp_signer();
    let serializer = timed_serializer_with_signer(signer, NullEncoding);
    let timestamp: u64 = 1560181622;
    let signed = "[1,2,3].D-AM9g.nHmuOEE3v5DuwHEW9noSBOvExO0";
    assert_eq!(serializer.sign_with_timestamp("[1,2,3]", timestamp), signed);
    let unsigned = serializer.unsign(signed).unwrap();
    assert_eq!(unsigned.timestamp(), timestamp);
    assert_eq!(unsigned.value(), "[1,2,3]");
}

#[test]
fn test_unverified_timed_good_signature() {
    let signer = default_builder("hello world").build().into_timestamp_signer();
    let timestamp: u64 = 1560181622;
    let signed = "[1,2,3].D-AM9g.nHmuOEE3v5DuwHEW9noSBOvExO0";
    let unverified_value =
        UnverifiedTimedValue::from_str(signer.separator(), NullEncoding, signed).unwrap();
    let expected = "[1,2,3]";
    assert_eq!(unverified_value.unverified_timestamp(), timestamp);
    assert_eq!(unverified_value.unverified_value().as_str(), expected);
    assert_eq!(unverified_value.verify(&signer).unwrap().value(), expected);
}

#[test]
fn test_unverified_timed_value_if_not_expired() {
    let signer = default_builder("hello world").build().into_timestamp_signer();
    let serializer = timed_serializer_with_signer(signer, NullEncoding);
    let timestamp = unix_seconds_now() - 30;
    let signed = serializer.sign_with_timestamp("[1,2,3]", timestamp);

    let unsigned = serializer.unsign(&signed).unwrap();
    assert!(unsigned.value_if_not_expired(15).is_err());

    let unsigned = serializer.unsign(&signed).unwrap();
    assert_eq!(unsigned.value_if_not_expired(60).unwrap(), "[1,2,3]");
}

#[test]
fn test_url_safe_serializer_round_trip() {
    let signer = default_builder("round trip key").build();
    let serializer = serializer_with_signer(signer, URLSafeEncoding);
    for payload in ["", "x", "{\"a\": [1, 2, 3]}", "text with . and spaces"] {
        let token = serializer.sign(payload);
        assert_eq!(serializer.unsign(&token).unwrap(), payload);
    }
}

#[test]
fn test_unverified_from_str_errors() {
    let separator = Separator::default();
    // no separator at all
    assert!(matches!(
        UnverifiedValue::from_str(separator, NullEncoding, "plain"),
        Err(BadSignature::SeparatorNotFound { .. })
    ));
    // splits, but the payload part is not base64 text
    assert!(matches!(
        UnverifiedValue::from_str(separator, URLSafeEncoding, "not*base64.sig"),
        Err(BadSignature::PayloadInvalid {
            error: PayloadError::Base64(_),
            ..
        })
    ));
}

#[test]
fn test_unverified_timed_from_str_errors() {
    let separator = Separator::default();
    // only one separator: no room for a timestamp field
    assert!(matches!(
        UnverifiedTimedValue::from_str(separator, NullEncoding, "value.sig"),
        Err(BadTimedSignature::SeparatorNotFound { .. })
    ));
    // a timestamp field that does not decode ('=' is outside the alphabet)
    assert!(matches!(
        UnverifiedTimedValue::from_str(separator, NullEncoding, "value.no=ts.sig"),
        Err(BadTimedSignature::TimestampInvalid { .. })
    ));
    // timestamp fine, payload not base64 under the base64 transform
    assert!(matches!(
        UnverifiedTimedValue::from_str(separator, URLSafeEncoding, "not*base64.D-AM9g.sig"),
        Err(BadTimedSignature::PayloadInvalid { .. })
    ));
}
