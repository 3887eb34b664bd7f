use trustcore::decimal::{i64_dec, parse_i64_exec, parse_signed_dec, parse_u32_exec, u128_dec};
use trustcore::hashing::{HashResponse, Request};
use trustcore::hex::{ascii_hex_to_bytes, bytes_to_hex, hex_to_bytes};

#[test]
fn test_decimal_rendering() {
    assert_eq!(u128_dec(0), "0");
    assert_eq!(u128_dec(10203), "10203");
    assert_eq!(
        u128_dec(340282366920938463463374607431768211455),
        "340282366920938463463374607431768211455"
    );
    assert_eq!(i64_dec(-1), "-1");
    assert_eq!(i64_dec(i64::MIN), "-9223372036854775808");
    assert_eq!(i64_dec(i64::MAX), "9223372036854775807");
}

#[test]
fn test_decimal_parsing() {
    assert_eq!(parse_signed_dec("0"), Some((false, 0)));
    assert_eq!(parse_signed_dec("-17"), Some((true, 17)));
    assert_eq!(parse_signed_dec("-0"), Some((false, 0)));
    assert_eq!(parse_signed_dec(""), None);
    assert_eq!(parse_signed_dec("-"), None);
    assert_eq!(parse_signed_dec("07"), None);
    assert_eq!(parse_signed_dec("1x"), None);
    assert_eq!(
        parse_signed_dec("340282366920938463463374607431768211455"),
        Some((false, u128::MAX))
    );
    assert_eq!(parse_signed_dec("340282366920938463463374607431768211456"), None);
    assert_eq!(parse_i64_exec("-9223372036854775808"), Some(i64::MIN));
    assert_eq!(parse_i64_exec("-9223372036854775809"), None);
    assert_eq!(parse_u32_exec("4294967295"), Some(u32::MAX));
    assert_eq!(parse_u32_exec("4294967296"), None);
    assert_eq!(parse_u32_exec("-1"), None);
}

#[test]
fn test_hex_round_trip() {
    assert_eq!(bytes_to_hex(&[0x0f, 0xa0]), "0fa0");
    assert_eq!(hex_to_bytes("0fa0"), Some(vec![0x0f, 0xa0]));
    assert_eq!(hex_to_bytes("0FA0"), Some(vec![0x0f, 0xa0]));
    assert_eq!(hex_to_bytes("0fa"), None);
    assert_eq!(hex_to_bytes("zz"), None);
    assert_eq!(ascii_hex_to_bytes(b"0fa0"), Some(vec![0x0f, 0xa0]));
    assert_eq!(ascii_hex_to_bytes(b"0fa"), None);
}

#[test]
fn test_hash_protocol_shapes() {
    match Request::Hash("secret".to_string()) {
        Request::Hash(p) => assert_eq!(p, "secret"),
        _ => panic!("a hash request keeps its password"),
    }
    match Request::Verify("secret".to_string(), "stored".to_string()) {
        Request::Verify(p, h) => {
            assert_eq!(p, "secret");
            assert_eq!(h, "stored");
        }
        _ => panic!("a verify request keeps both parts"),
    }
    let ok: HashResponse<String, String> = HashResponse::Success("hash".to_string());
    assert_eq!(ok.into_result(), Ok("hash".to_string()));
    let err: HashResponse<String, String> = HashResponse::Failure("boom".to_string());
    assert_eq!(err.into_result(), Err("boom".to_string()));
}
