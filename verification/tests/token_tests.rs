use trustcore::error::Error;
use trustcore::keys::{KeySet, DEFAULT_EXPIRY_DAYS};
use trustcore::number::Number;
use trustcore::paseto::{try_sign_payload, try_verify_payload};
use trustcore::token::{Audience, Id, Token, Uuid};
use trustcore::value::Value;

fn sample_token() -> Token {
    Token {
        id: Uuid([0u8; 16]),
        issuer: "issuer-one".to_string(),
        subject: Id::from_str("507f1f77bcf86cd799439011").unwrap(),
        audience: Audience::One("aud-one".to_string()),
        expiration: None,
        not_before: None,
        issued_at: 5,
        claims: vec![("role".to_string(), Value::String("admin".to_string()))],
    }
}

#[test]
fn test_audience_is_empty() {
    assert!(Audience::One(String::new()).is_empty());
    assert!(!Audience::One("a".to_string()).is_empty());
    assert!(Audience::Many(vec![]).is_empty());
    assert!(!Audience::Many(vec!["a".to_string()]).is_empty());
}

#[test]
fn test_token_expiry_boolean() {
    let mut token = sample_token();
    assert!(!token.expired_at(i64::MAX));
    token.expiration = Some(100);
    assert!(!token.expired_at(99));
    assert!(token.expired_at(100));
    assert!(token.expired_at(101));
    token.expiration = None;
    assert!(!token.expired());
}

#[test]
fn test_payload_json_exact() {
    let token = sample_token();
    assert_eq!(
        token.payload_json(),
        "{\"jti\":\"00000000000000000000000000000000\",\"iss\":\"issuer-one\",\
         \"sub\":\"507f1f77bcf86cd799439011\",\"aud\":\"aud-one\",\"exp\":null,\
         \"nbf\":null,\"iat\":5,\"role\":\"admin\"}"
    );
}

#[test]
fn test_payload_json_escapes_and_audience_list() {
    let mut token = sample_token();
    token.audience = Audience::Many(vec!["a".to_string(), "b".to_string()]);
    token.expiration = Some(-3);
    token.claims = vec![(
        "note".to_string(),
        Value::String("say \"hi\"\n".to_string()),
    )];
    assert_eq!(
        token.payload_json(),
        "{\"jti\":\"00000000000000000000000000000000\",\"iss\":\"issuer-one\",\
         \"sub\":\"507f1f77bcf86cd799439011\",\"aud\":[\"a\",\"b\"],\"exp\":-3,\
         \"nbf\":null,\"iat\":5,\"note\":\"say \\\"hi\\\"\\n\"}"
    );
}

#[test]
fn test_sign_then_verify_round_trip() {
    let now = 1_700_000_000i64;
    let keys = KeySet::create(now, DEFAULT_EXPIRY_DAYS);
    let token = sample_token();
    let signed = token.try_sign(&keys).unwrap();
    let payload = try_verify_payload(&signed, &keys).unwrap();
    assert_eq!(payload, token.payload_json());
}

#[test]
fn test_grace_window_fallback() {
    // a token signed under the retired key verifies while the key set
    // retains it, and fails once nothing is retained
    let now = 1_700_000_000i64;
    let old_keys = KeySet::create(now, DEFAULT_EXPIRY_DAYS);
    let rotated = KeySet::next_key_set(Some(&old_keys), old_keys.expires_at, DEFAULT_EXPIRY_DAYS)
        .unwrap();
    assert_eq!(rotated.previous_verify_key, Some(old_keys.verify_key));

    let signed = try_sign_payload("claims-payload", &old_keys).unwrap();
    let accepted = try_verify_payload(&signed, &rotated).unwrap();
    assert_eq!(accepted, "claims-payload");

    let mut without_previous = rotated;
    without_previous.previous_verify_key = None;
    match try_verify_payload(&signed, &without_previous) {
        Err(Error::InvalidSignature) => {}
        _ => panic!("a token under a dropped key must be rejected"),
    }
}

#[test]
fn test_oversized_payload_signs_but_never_verifies() {
    // signing enforces no size limit, but the verifier rejects tokens
    // over its cap before parsing: the sign-side guarantee is rightly
    // conditional on the payload size
    let now = 1_700_000_000i64;
    let keys = KeySet::create(now, DEFAULT_EXPIRY_DAYS);
    let payload = "a".repeat(70_000);
    let signed = try_sign_payload(&payload, &keys).unwrap();
    assert!(try_verify_payload(&signed, &keys).is_err());
}

#[test]
fn test_payload_within_cap_round_trips() {
    let now = 1_700_000_000i64;
    let keys = KeySet::create(now, DEFAULT_EXPIRY_DAYS);
    let payload = "b".repeat(12_000);
    let signed = try_sign_payload(&payload, &keys).unwrap();
    assert_eq!(try_verify_payload(&signed, &keys).unwrap(), payload);
}

#[test]
fn test_malformed_token_is_not_retried() {
    let now = 1_700_000_000i64;
    let keys = KeySet::create(now, DEFAULT_EXPIRY_DAYS);
    match try_verify_payload("not a token at all", &keys) {
        Err(Error::MalformedToken) => {}
        _ => panic!("garbage must be rejected as malformed"),
    }
}

#[test]
fn test_uuid_new_v4_bits_and_hex() {
    let id = Uuid::new_v4();
    assert_eq!(id.0[6] & 0xf0, 0x40);
    assert_eq!(id.0[8] & 0xc0, 0x80);
    let hex = id.simple_hex();
    assert_eq!(hex.len(), 32);
    let back = Uuid::from_hex(&hex).unwrap();
    assert_eq!(back, id);
}

#[test]
fn test_id_hex_round_trip() {
    let id = Id::from_str("507f1f77bcf86cd799439011").unwrap();
    assert_eq!(id.to_hex(), "507f1f77bcf86cd799439011");
    assert!(Id::from_str("507f").is_err());
    assert!(Id::from_str("zz7f1f77bcf86cd799439011").is_err());
    let upper = Id::from_str("507F1F77BCF86CD799439011").unwrap();
    assert_eq!(upper, id);
}

#[test]
fn test_number_claims_render_in_decimal() {
    let mut token = sample_token();
    token.claims = vec![("n".to_string(), Value::Number(Number::I128(-17)))];
    let payload = token.payload_json();
    assert!(payload.ends_with("\"n\":-17}"));
}
