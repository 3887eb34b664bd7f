use trustcore::number::Number;

#[test]
fn test_number_to_u128() {
    assert_eq!(Number::U8(255).to_u128().unwrap(), 255);
    assert!(Number::I8(-1).to_u128().is_err());
    assert_eq!(Number::U16(65535).to_u128().unwrap(), 65535);
    assert!(Number::I16(-1).to_u128().is_err());
    assert_eq!(Number::U32(4294967295).to_u128().unwrap(), 4294967295);
    assert!(Number::I32(-1).to_u128().is_err());
    assert_eq!(
        Number::U64(18446744073709551615).to_u128().unwrap(),
        18446744073709551615
    );
    assert!(Number::I64(-1).to_u128().is_err());
    assert_eq!(
        Number::U128(340282366920938463463374607431768211455)
            .to_u128()
            .unwrap(),
        340282366920938463463374607431768211455
    );
    assert!(Number::I128(-1).to_u128().is_err());
}

#[test]
fn test_number_to_i128() {
    assert_eq!(Number::U8(255).to_i128().unwrap(), 255);
    assert_eq!(Number::I8(-1).to_i128().unwrap(), -1);
    assert_eq!(Number::U16(65535).to_i128().unwrap(), 65535);
    assert_eq!(Number::I16(-1).to_i128().unwrap(), -1);
    assert_eq!(Number::U32(4294967295).to_i128().unwrap(), 4294967295);
    assert_eq!(Number::I32(-1).to_i128().unwrap(), -1);
    assert_eq!(
        Number::U64(18446744073709551615).to_i128().unwrap(),
        18446744073709551615
    );
    assert_eq!(Number::I64(-1).to_i128().unwrap(), -1);
    assert!(Number::U128(340282366920938463463374607431768211455)
        .to_i128()
        .is_err());
    assert_eq!(Number::I128(-1).to_i128().unwrap(), -1);
}

#[test]
fn test_number_to_u64() {
    assert_eq!(Number::U8(255).to_u64().unwrap(), 255);
    assert!(Number::I8(-1).to_u64().is_err());
    assert_eq!(Number::U16(65535).to_u64().unwrap(), 65535);
    assert!(Number::I16(-1).to_u64().is_err());
    assert_eq!(Number::U32(4294967295).to_u64().unwrap(), 4294967295);
    assert!(Number::I32(-1).to_u64().is_err());
    assert_eq!(
        Number::U64(18446744073709551615).to_u64().unwrap(),
        18446744073709551615
    );
    assert!(Number::I64(-1).to_u64().is_err());
}

#[test]
fn test_number_to_i64() {
    assert_eq!(Number::U8(255).to_i64().unwrap(), 255);
    assert_eq!(Number::I8(-1).to_i64().unwrap(), -1);
    assert_eq!(Number::U16(65535).to_i64().unwrap(), 65535);
    assert_eq!(Number::I16(-1).to_i64().unwrap(), -1);
    assert_eq!(Number::U32(4294967295).to_i64().unwrap(), 4294967295);
    assert!(Number::U64(18446744073709551615).to_i64().is_err());
    assert_eq!(Number::I64(-1).to_i64().unwrap(), -1);
}

#[test]
fn test_number_to_u32() {
    assert_eq!(Number::U8(255).to_u32().unwrap(), 255);
    assert!(Number::I8(-1).to_u32().is_err());
    assert_eq!(Number::U16(65535).to_u32().unwrap(), 65535);
    assert!(Number::I16(-1).to_u32().is_err());
    assert_eq!(Number::U32(4294967295).to_u32().unwrap(), 4294967295);
    assert!(Number::I32(-1).to_u32().is_err());
}

#[test]
fn test_number_to_i32() {
    assert_eq!(Number::U8(255).to_i32().unwrap(), 255);
    assert_eq!(Number::I8(-1).to_i32().unwrap(), -1);
    assert_eq!(Number::U16(65535).to_i32().unwrap(), 65535);
    assert_eq!(Number::I16(-1).to_i32().unwrap(), -1);
    assert!(Number::U32(4294967295).to_i32().is_err());
    assert_eq!(Number::I32(-1).to_i32().unwrap(), -1);
}

#[test]
fn test_number_to_u16() {
    assert_eq!(Number::U8(255).to_u16().unwrap(), 255);
    assert!(Number::I8(-1).to_u16().is_err());
    assert_eq!(Number::U16(65535).to_u16().unwrap(), 65535);
    assert!(Number::I16(-1).to_u16().is_err());
}

#[test]
fn test_number_to_i16() {
    assert_eq!(Number::U8(255).to_i16().unwrap(), 255);
    assert_eq!(Number::I8(-1).to_i16().unwrap(), -1);
    assert!(Number::U16(65535).to_i16().is_err());
    assert_eq!(Number::I16(-1).to_i16().unwrap(), -1);
}

#[test]
fn test_number_to_u8() {
    assert_eq!(Number::U8(255).to_u8().unwrap(), 255);
    assert!(Number::I8(-1).to_u8().is_err());
}

#[test]
fn test_number_to_i8() {
    assert!(Number::U8(255).to_i8().is_err());
    assert_eq!(Number::I8(-1).to_i8().unwrap(), -1);
}

#[test]
fn test_number_to_attribute_value() {
    match trustcore::attr::number_attr(&Number::U8(255)) {
        trustcore::attr::Attr::N(s) => assert_eq!(s, "255"),
        _ => panic!("Expected a numeric attribute"),
    }
    match trustcore::attr::number_attr(&Number::I8(-1)) {
        trustcore::attr::Attr::N(s) => assert_eq!(s, "-1"),
        _ => panic!("Expected a numeric attribute"),
    }
}

#[test]
fn test_attribute_value_method() {
    let numbers = vec![Number::U8(1), Number::U8(2), Number::U8(3)];
    let attribute_value = Number::attribute_value(&numbers);
    if let trustcore::attr::Attr::B(blob) = attribute_value {
        assert_eq!(blob.as_slice(), &[1, 2, 3]);
    } else {
        panic!("Expected AttributeValue::B");
    }

    let numbers = vec![Number::I32(1), Number::I32(2), Number::I32(3)];
    let attribute_value = Number::attribute_value(&numbers);
    if let trustcore::attr::Attr::Ns(number_set) = attribute_value {
        assert_eq!(number_set, vec!["1", "2", "3"]);
    } else {
        panic!("Expected AttributeValue::Ns");
    }
}

#[test]
fn test_out_of_range_reports_failure() {
    assert_eq!(Number::I8(-1).to_u128(), Err(trustcore::number::OutOfRange));
    assert_eq!(Number::U8(255).to_u128(), Ok(255));
}
