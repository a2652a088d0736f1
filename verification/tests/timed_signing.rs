use std::time::{SystemTime, UNIX_EPOCH};

use itsdangerous::timestamp::{decode_timestamp, encode_timestamp, LEGACY_EPOCH};
use itsdangerous::{default_builder, BadTimedSignature, DefaultTimestampSigner, Seperator};

fn unix_seconds_now() -> u64 {
    SystemTime::now()
        .duration_since(UNIX_EPOCH)
        .unwrap()
        .as_secs()
}

#[test]
fn test_sign() {
    let signer = default_builder("hello").build().into_timestamp_signer();
    let timestamp: u64 = 1560181622;
    let signed = signer.sign_with_timestamp("hello world", timestamp);

    assert_eq!(signed, "hello world.D-AM9g.T7AHtE1DsJn4dzUb-oeOwpWWoX8");
    let unsigned = signer.unsign(&signed).unwrap();
    assert_eq!(unsigned.value(), "hello world");
    assert_eq!(unsigned.timestamp(), timestamp);
}

#[test]
fn timed_test_default_alias() {
    let _: DefaultTimestampSigner = default_builder("hello").build().into_timestamp_signer();
}

#[test]
fn test_sign_expired() {
    let signer = default_builder("hello").build().into_timestamp_signer();
    let timestamp = unix_seconds_now() - 60;
    let signed = signer.sign_with_timestamp("hello world", timestamp);
    let unsigned = signer.unsign(&signed).unwrap();

    assert!(unsigned.value_if_not_expired(30).is_err());
}

#[test]
fn test_sign_not_expired() {
    let signer = default_builder("hello").build().into_timestamp_signer();
    let timestamp = unix_seconds_now() - 60;
    let signed = signer.sign_with_timestamp("hello world", timestamp);
    let unsigned = signer.unsign(&signed).unwrap();

    assert!(unsigned.value_if_not_expired(90).is_ok());
}

#[test]
fn test_expiry_boundary() {
    // Expiry against an explicit clock: valid at exactly max_age seconds
    // of age, expired one second later, and a future timestamp is never
    // expired.
    let signer = default_builder("hello").build().into_timestamp_signer();
    let t0: u64 = 1560181622;
    let max_age: u64 = 30;
    let signed = signer.sign_with_timestamp("hello world", t0);

    let unsigned = signer.unsign(&signed).unwrap();
    assert_eq!(
        unsigned.value_if_not_expired_at(t0 + max_age, max_age).unwrap(),
        "hello world"
    );

    let unsigned = signer.unsign(&signed).unwrap();
    let expired = unsigned.value_if_not_expired_at(t0 + max_age + 1, max_age);
    assert!(matches!(
        expired,
        Err(BadTimedSignature::TimestampExpired {
            timestamp: 1560181622,
            max_age: 30,
            ..
        })
    ));

    let unsigned = signer.unsign(&signed).unwrap();
    assert!(unsigned.value_if_not_expired_at(t0 - 1, max_age).is_ok());
}

#[test]
fn test_timestamp_codec_round_trip() {
    // Exact second-precision round trip across the representable range.
    let samples: [u64; 7] = [
        LEGACY_EPOCH,
        LEGACY_EPOCH + 1,
        LEGACY_EPOCH + 255,
        LEGACY_EPOCH + 256,
        1560181622,
        u64::MAX - 1,
        u64::MAX,
    ];
    for ts in samples {
        let encoded = encode_timestamp(ts);
        assert_eq!(decode_timestamp(&encoded), Some(ts), "for {}", ts);
    }
    assert_eq!(encode_timestamp(1560181622), "D-AM9g");
    assert_eq!(decode_timestamp("D-AM9g"), Some(1560181622));
    // the legacy epoch itself encodes as the empty byte string
    assert_eq!(encode_timestamp(LEGACY_EPOCH), "");
}

#[test]
fn test_timestamp_decode_rejects_bad_input() {
    // invalid base64
    assert_eq!(decode_timestamp("D-A.9g"), None);
    // more than eight bytes of payload
    assert_eq!(decode_timestamp("AAAAAAAAAAAA"), None);
    // a value that overflows once the legacy epoch is added back
    assert_eq!(decode_timestamp("__________8"), None);
}

#[test]
fn test_timestamp_missing() {
    let signer = default_builder("hello").build();
    let timed = default_builder("hello").build().into_timestamp_signer();
    // well signed, but with no timestamp field inside the payload
    let token = signer.sign("bare value");
    assert!(matches!(
        timed.unsign(&token),
        Err(BadTimedSignature::TimestampMissing { .. })
    ));
}

#[test]
fn test_timestamp_invalid() {
    let signer = default_builder("hello").build();
    let timed = default_builder("hello").build().into_timestamp_signer();
    // well signed, and with a timestamp field that does not decode
    let token = signer.sign("value.no=ts");
    assert!(matches!(
        timed.unsign(&token),
        Err(BadTimedSignature::TimestampInvalid { .. })
    ));
}

#[test]
fn test_timed_tamper_detection() {
    let signer = default_builder("hello").build().into_timestamp_signer();
    let signed = signer.sign_with_timestamp("hello world", 1560181622);
    let mut with_other_time = String::from("hello world.D-AM9h.");
    with_other_time.push_str(signed.rsplit('.').next().unwrap());
    assert!(matches!(
        signer.unsign(&with_other_time),
        Err(BadTimedSignature::SignatureMismatch { .. })
    ));
}

#[test]
fn test_seperator_legacy_twin() {
    let seperator = Seperator::new('!').unwrap();
    assert_eq!(seperator.split("a!b!c").unwrap(), ("a!b", "c"));
    assert!(seperator.split("abc").is_err());
    assert!(Seperator::new('x').is_err());
    let _ = Seperator::default();
}
