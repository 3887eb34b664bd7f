use trustcore::attr::{attr_eq, decode, encode, Attr};
use trustcore::number::Number;
use trustcore::value::Value;

#[test]
fn test_value_as_option() {
    assert!(matches!(Value::Null.as_option(), None));
    match Value::Bool(true).as_option() {
        Some(Value::Bool(b)) => assert!(b),
        _ => panic!("expected the boolean back"),
    }
}

#[test]
fn test_value_option() {
    assert!(matches!(Value::option(None), None));
    assert!(matches!(Value::option(Some(Value::Null)), None));
    match Value::option(Some(Value::Bool(true))) {
        Some(Value::Bool(b)) => assert!(b),
        _ => panic!("expected the boolean back"),
    }
}

#[test]
fn test_value_from_option() {
    assert!(Value::from_option(None).is_err());
    match Value::from_option(Some(Value::Bool(true))) {
        Ok(Value::Bool(b)) => assert!(b),
        _ => panic!("expected the boolean back"),
    }
}

#[test]
fn test_value_as_int() {
    assert_eq!(
        Value::Number(Number::U8(42)).as_int().to_u8().unwrap(),
        42
    );
    assert_eq!(
        Value::String("not a number".to_string())
            .as_int()
            .to_u8()
            .unwrap(),
        0
    );
}

#[test]
fn test_value_to_option() {
    assert_eq!(
        Value::Number(Number::U8(42))
            .to_number()
            .unwrap()
            .to_u8()
            .unwrap(),
        42u8
    );
    assert!(Value::String("not a number".to_string()).to_number().is_err());
}

#[test]
fn test_value_to_string() {
    assert_eq!(
        Value::String("hello".to_string()).to_text().unwrap(),
        "hello".to_string()
    );
    assert!(Value::Bool(true).to_text().is_err());
}

#[test]
fn test_value_to_hashmap() {
    let map = vec![("key".to_string(), Value::Bool(true))];
    let entries = Value::Object(map).to_entries().unwrap();
    assert_eq!(entries.len(), 1);
    assert_eq!(entries[0].0, "key");
    assert!(matches!(entries[0].1, Value::Bool(true)));
    assert!(Value::Bool(true).to_entries().is_err());
}

#[test]
fn test_value_to_vec() {
    let vec = vec![Value::Bool(true), Value::Bool(false)];
    let array = Value::Array(vec).to_array().unwrap();
    assert_eq!(array.len(), 2);
    assert!(matches!(array[0], Value::Bool(true)));
    assert!(matches!(array[1], Value::Bool(false)));
    assert!(Value::Bool(true).to_array().is_err());
}

#[test]
fn test_value_to_attribute_value() {
    assert!(matches!(encode(&Value::Null), Attr::Null));
    assert!(matches!(encode(&Value::Bool(true)), Attr::Bool(true)));
    match encode(&Value::String("test".to_string())) {
        Attr::S(s) => assert_eq!(s, "test"),
        _ => panic!("expected a string attribute"),
    }

    let map = vec![("key".to_string(), Value::Bool(true))];
    match encode(&Value::Object(map)) {
        Attr::M(entries) => {
            assert_eq!(entries.len(), 1);
            assert_eq!(entries[0].0, "key");
            assert!(matches!(entries[0].1, Attr::Bool(true)));
        }
        _ => panic!("expected a map attribute"),
    }

    let vec = vec![Value::Number(Number::U8(1)), Value::Number(Number::U8(2))];
    let expected = Number::attribute_value(&vec![Number::U8(1), Number::U8(2)]);
    assert!(attr_eq(&encode(&Value::Array(vec)), &expected));
}

#[test]
fn test_round_trip_non_homogeneous() {
    // a tree that avoids the homogeneous-array set encodings round-trips
    // exactly: mixed array kinds force the ordered-list path
    let original = Value::Object(vec![
        ("flag".to_string(), Value::Bool(false)),
        ("name".to_string(), Value::String("quote \" and \\ ok".to_string())),
        ("count".to_string(), Value::Number(Number::U16(300))),
        (
            "mixed".to_string(),
            Value::Array(vec![
                Value::Number(Number::I8(-4)),
                Value::String("x".to_string()),
                Value::Null,
                Value::Object(vec![("inner".to_string(), Value::Number(Number::U8(9)))]),
            ]),
        ),
        ("empty".to_string(), Value::Array(vec![])),
    ]);
    let encoded = encode(&original);
    let decoded = decode(&encoded).unwrap();
    let reencoded = encode(&decoded);
    assert!(attr_eq(&encoded, &reencoded));
    match decoded {
        Value::Object(entries) => {
            assert_eq!(entries.len(), 5);
            assert_eq!(entries[2].0, "count");
            match &entries[2].1 {
                Value::Number(n) => assert_eq!(n.to_u16().unwrap(), 300),
                _ => panic!("count should decode as a number"),
            }
        }
        _ => panic!("expected the map back"),
    }
}

#[test]
fn test_homogeneous_array_set_is_preserved() {
    // the homogeneous numeric array goes through the unordered-set kind;
    // the store may deduplicate and reorder it, so only the set of values
    // is promised.  Emulate the store's handling and check the set.
    let original = Value::Array(vec![
        Value::Number(Number::U16(700)),
        Value::Number(Number::U16(300)),
        Value::Number(Number::U16(700)),
    ]);
    let encoded = encode(&original);
    let stored = match encoded {
        Attr::Ns(mut members) => {
            members.sort();
            members.dedup();
            Attr::Ns(members)
        }
        _ => panic!("a non-u8 numeric array should use the numeric set kind"),
    };
    let decoded = decode(&stored).unwrap();
    match decoded {
        Value::Array(items) => {
            let mut values: Vec<u16> = items
                .iter()
                .map(|v| v.as_int().to_u16().unwrap())
                .collect();
            values.sort();
            assert_eq!(values, vec![300, 700]);
        }
        _ => panic!("expected an array back"),
    }
}

#[test]
fn test_u8_array_becomes_blob_and_returns() {
    let original = Value::Array(vec![
        Value::Number(Number::U8(1)),
        Value::Number(Number::U8(2)),
    ]);
    let encoded = encode(&original);
    match &encoded {
        Attr::B(blob) => assert_eq!(blob.as_slice(), &[1, 2]),
        _ => panic!("an all-u8 array should use the blob kind"),
    }
    let decoded = decode(&encoded).unwrap();
    match decoded {
        Value::Array(items) => {
            assert_eq!(items.len(), 2);
            assert_eq!(items[0].as_int().to_u8().unwrap(), 1);
            assert_eq!(items[1].as_int().to_u8().unwrap(), 2);
        }
        _ => panic!("expected an array back"),
    }
}

#[test]
fn test_malformed_numeric_attribute_is_rejected() {
    assert!(decode(&Attr::N("not a number".to_string())).is_err());
    assert!(decode(&Attr::Ns(vec!["5".to_string(), "x".to_string()])).is_err());
    assert!(decode(&Attr::N("007".to_string())).is_err());
}
