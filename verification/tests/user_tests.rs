use trustcore::attr::Attr;
use trustcore::error::Error;
use trustcore::store::{item_get, item_set, Store};
use trustcore::token::Id;
use trustcore::user::{
    create_user, delete_user, update_user, user_by_email_does_not_exist, EmailAddress, User,
};
use trustcore::value::Value;

fn sample_user() -> User {
    User {
        id: Id::default(),
        email: EmailAddress::New("test@example.com".to_string()),
        user_name: "testuser".to_string(),
        first_name: "Test".to_string(),
        last_name: "User".to_string(),
        password: "password".to_string(),
        profile_picture: Some("http://example.com/pic.jpg".to_string()),
        created_at: chrono::Utc::now().timestamp_millis(),
        expires: None,
    }
}

#[test]
fn test_try_from_attribute_value() {
    let mut map: Vec<(String, Attr)> = Vec::new();
    item_set(&mut map, "id".to_string(), Attr::B(Id::default().0.to_vec()));
    item_set(
        &mut map,
        "email".to_string(),
        Attr::S("test@example.com".to_string()),
    );
    item_set(&mut map, "email_verified".to_string(), Attr::Bool(false));
    item_set(&mut map, "user_name".to_string(), Attr::S("testuser".to_string()));
    item_set(&mut map, "first_name".to_string(), Attr::S("Test".to_string()));
    item_set(&mut map, "last_name".to_string(), Attr::S("User".to_string()));
    item_set(&mut map, "password".to_string(), Attr::S("password".to_string()));
    item_set(
        &mut map,
        "created_at".to_string(),
        Attr::N(chrono::Utc::now().timestamp_millis().to_string()),
    );

    let user = User::from_item(&map).unwrap();
    match user.email {
        EmailAddress::New(address) => assert_eq!(address, "test@example.com"),
        _ => panic!("the unverified address must come back as new"),
    }
}

#[test]
fn test_from_user_to_attribute_value() {
    let user = sample_user();
    let item = user.to_item();
    assert!(item_get(&item, "email").is_some());
}

#[test]
fn test_user_item_round_trip() {
    let user = sample_user();
    let item = user.to_item();
    let back = User::from_item(&item).unwrap();
    match back.email {
        EmailAddress::New(address) => assert_eq!(address, "test@example.com"),
        _ => panic!("verification state must survive the round trip"),
    }
    assert_eq!(back.user_name, "testuser");
    assert_eq!(back.first_name, "Test");
    assert_eq!(back.last_name, "User");
    assert_eq!(back.password, "password");
    assert_eq!(back.profile_picture, Some("http://example.com/pic.jpg".to_string()));
    assert_eq!(back.created_at, user.created_at);
    assert_eq!(back.expires, None);
    assert_eq!(back.id, user.id);
}

#[test]
fn test_malformed_user_item_is_a_decode_error() {
    let mut map: Vec<(String, Attr)> = Vec::new();
    item_set(&mut map, "id".to_string(), Attr::B(vec![1, 2, 3]));
    assert!(User::from_item(&map).is_err());

    let mut map2: Vec<(String, Attr)> = Vec::new();
    item_set(&mut map2, "id".to_string(), Attr::B(Id::default().0.to_vec()));
    item_set(&mut map2, "email".to_string(), Attr::S("no-at-sign".to_string()));
    assert!(User::from_item(&map2).is_err());
}

#[test]
fn test_user_store_flow() {
    let mut store = Store::new();
    let user = sample_user();
    assert!(user_by_email_does_not_exist(&store, "test@example.com").is_ok());
    create_user(&mut store, &user);
    match user_by_email_does_not_exist(&store, "test@example.com") {
        Err(Error::UserWithEmailAlreadyExists) => {}
        _ => panic!("the pre-check must see the created user"),
    }

    let update = vec![("first_name".to_string(), Value::String("Renamed".to_string()))];
    let merged = update_user(&mut store, &user.id, &update).unwrap();
    assert_eq!(merged.first_name, "Renamed");
    assert_eq!(merged.last_name, "User");

    delete_user(&mut store, &user.id);
    let other = Id::from_str("507f1f77bcf86cd799439011").unwrap();
    match update_user(&mut store, &other, &update) {
        Err(Error::ConditionFailed) => {}
        _ => panic!("updating an absent user must fail the condition"),
    }
}
