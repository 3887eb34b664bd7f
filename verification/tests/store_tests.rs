use trustcore::attr::{attr_eq, Attr};
use trustcore::error::Error;
use trustcore::number::Number;
use trustcore::store::{item_get, item_set, Store};
use trustcore::value::Value;

fn record(pk: &str, label: &str) -> Vec<(String, Attr)> {
    let mut item: Vec<(String, Attr)> = Vec::new();
    item_set(&mut item, "pk".to_string(), Attr::S(pk.to_string()));
    item_set(&mut item, "label".to_string(), Attr::S(label.to_string()));
    item
}

fn pk(v: &str) -> Attr {
    Attr::S(v.to_string())
}

fn text_of(item: &Vec<(String, Attr)>, key: &str) -> String {
    match item_get(item, key) {
        Some(Attr::S(s)) => s.clone(),
        _ => panic!("missing string attribute"),
    }
}

#[test]
fn test_exists_and_get() {
    let mut store = Store::new();
    assert!(!store.item_exists("pk", &pk("a")));
    store.create_item("pk", record("a", "one"));
    assert!(store.item_exists("pk", &pk("a")));
    assert!(!store.item_exists("pk", &pk("b")));
    let item = store.get_item("pk", &pk("a")).unwrap();
    assert_eq!(text_of(&item, "label"), "one");
}

#[test]
fn test_create_is_an_upsert() {
    let mut store = Store::new();
    store.create_item("pk", record("a", "one"));
    store.create_item("pk", record("a", "two"));
    let item = store.get_item("pk", &pk("a")).unwrap();
    assert_eq!(text_of(&item, "label"), "two");
}

#[test]
fn test_update_missing_record_fails_without_write() {
    let mut store = Store::new();
    store.create_item("pk", record("a", "one"));
    let update = vec![("label".to_string(), Value::String("three".to_string()))];
    match store.update_item("pk", &pk("missing"), &update) {
        Err(Error::ConditionFailed) => {}
        _ => panic!("updating an absent record must fail the condition"),
    }
    // and nothing was written
    assert!(!store.item_exists("pk", &pk("missing")));
    let untouched = store.get_item("pk", &pk("a")).unwrap();
    assert_eq!(text_of(&untouched, "label"), "one");
}

#[test]
fn test_create_then_update_returns_merged_record() {
    let mut store = Store::new();
    store.create_item("pk", record("a", "one"));
    let update = vec![
        ("label".to_string(), Value::String("patched".to_string())),
        ("extra".to_string(), Value::Number(Number::U8(7))),
    ];
    let merged = store.update_item("pk", &pk("a"), &update).unwrap();
    assert_eq!(text_of(&merged, "label"), "patched");
    match item_get(&merged, "extra") {
        Some(Attr::N(s)) => assert_eq!(s, "7"),
        _ => panic!("the new field must appear in the merged record"),
    }
    // the key survives untouched
    assert!(attr_eq(item_get(&merged, "pk").unwrap(), &pk("a")));
    // the store holds the merged record
    let read_back = store.get_item("pk", &pk("a")).unwrap();
    assert_eq!(text_of(&read_back, "label"), "patched");
}

#[test]
fn test_delete_is_unconditional() {
    let mut store = Store::new();
    store.create_item("pk", record("a", "one"));
    store.delete_item("pk", &pk("a"));
    assert!(!store.item_exists("pk", &pk("a")));
    // deleting what is absent still succeeds (no panic, no change)
    store.delete_item("pk", &pk("a"));
    assert!(!store.item_exists("pk", &pk("a")));
}

#[test]
fn test_expire_sets_ttl_attribute() {
    let mut store = Store::new();
    store.create_item("pk", record("a", "one"));
    let now = 1_700_000_000i64;
    store.expire("pk", &pk("a"), 10, now).unwrap();
    let item = store.get_item("pk", &pk("a")).unwrap();
    match item_get(&item, "expires") {
        Some(Attr::N(s)) => assert_eq!(s, &(now + 600).to_string()),
        _ => panic!("the TTL attribute must be numeric"),
    }
    match store.expire("pk", &pk("missing"), 10, now) {
        Err(Error::ConditionFailed) => {}
        _ => panic!("expiring an absent record must fail the condition"),
    }
}

#[test]
fn test_secondary_index_lookup() {
    let mut store = Store::new();
    let mut item = record("a", "one");
    item_set(&mut item, "email".to_string(), Attr::S("x@example.com".to_string()));
    store.create_item("pk", item);
    assert!(store.item_exists("email", &Attr::S("x@example.com".to_string())));
    let found = store.get_item("email", &Attr::S("x@example.com".to_string())).unwrap();
    assert_eq!(text_of(&found, "pk"), "a");
}
