use itsdangerous::{
    default_builder, serializer_with_signer, BadSignature, MultiSerializer, NullEncoding,
    URLSafeEncoding,
};

#[test]
fn test_multi_serializer() {
    let primary = serializer_with_signer(default_builder("primary").build(), URLSafeEncoding);
    let secondary = serializer_with_signer(default_builder("secondary").build(), NullEncoding);
    let irrelevant = serializer_with_signer(default_builder("irrelevant").build(), NullEncoding);

    let a = primary.sign("hello");
    let b = secondary.sign("world");
    let c = irrelevant.sign("danger!");

    let multi = MultiSerializer::new(primary).add_fallback(secondary);

    assert_eq!(multi.sign("hello"), a);
    assert_eq!(multi.unsign(&a).unwrap(), "hello");
    assert_eq!(multi.unsign(&b).unwrap(), "world");
    assert!(multi.unsign(&c).is_err());
}

#[test]
fn test_fallback_ordering() {
    // With primary key A and fallbacks [B, C]: a token signed only with B
    // unsigns, one signed only with C unsigns, one signed with none of
    // them fails with the primary's error, and signing always uses A.
    let a = serializer_with_signer(default_builder("key A").build(), NullEncoding);
    let b = serializer_with_signer(default_builder("key B").build(), NullEncoding);
    let c = serializer_with_signer(default_builder("key C").build(), NullEncoding);
    let d = serializer_with_signer(default_builder("key D").build(), NullEncoding);

    let token_a = a.sign("signed by A");
    let token_b = b.sign("signed by B");
    let token_c = c.sign("signed by C");
    let token_d = d.sign("signed by D");

    let multi = MultiSerializer::new(a).add_fallback(b).add_fallback(c);

    assert_eq!(multi.unsign(&token_a).unwrap(), "signed by A");
    assert_eq!(multi.unsign(&token_b).unwrap(), "signed by B");
    assert_eq!(multi.unsign(&token_c).unwrap(), "signed by C");
    // the reported error is the primary's: a signature mismatch naming
    // the parts as the primary split them
    match multi.unsign(&token_d) {
        Err(BadSignature::SignatureMismatch { value, .. }) => {
            assert_eq!(value, "signed by D");
        }
        other => panic!("expected the primary's mismatch, got {:?}", other.is_ok()),
    }

    // a fresh token always comes from the primary
    let expected = serializer_with_signer(default_builder("key A").build(), NullEncoding)
        .sign("fresh");
    assert_eq!(multi.sign("fresh"), expected);
}
