use trustcore::attr::Attr;
use trustcore::error::Error;
use trustcore::store::{item_get, item_set, Either, Store};
use trustcore::token::{Id, Uuid};
use trustcore::user::{create_user, EmailAddress, User};
use trustcore::verification::{
    generate_verification_code, verify_email, verify_magic_link, verify_verification_code,
    Verification,
};

#[test]
fn test_verification_to_hashmap() {
    let verification = Verification {
        user_id: Id::from_str("507f1f77bcf86cd799439011").unwrap(),
        magic_id: Uuid::new_v4(),
        code: 120203,
        expires: 1_614_000_600,
    };

    let map = verification.to_item();
    match item_get(&map, "code") {
        Some(Attr::N(s)) => assert_eq!(s, "120203"),
        _ => panic!("code must be a numeric attribute"),
    }
    match item_get(&map, "expires") {
        Some(Attr::N(s)) => assert_eq!(s, "1614000600"),
        _ => panic!("expires must be a numeric attribute"),
    }
}

#[test]
fn test_hashmap_to_verification() {
    let mut map: Vec<(String, Attr)> = Vec::new();
    item_set(
        &mut map,
        "user_id".to_string(),
        Attr::B(b"507f1f77bcf86cd799439011".to_vec()),
    );
    item_set(
        &mut map,
        "magic_id".to_string(),
        Attr::B(Uuid::new_v4().0.to_vec()),
    );
    item_set(&mut map, "code".to_string(), Attr::N(010203.to_string()));
    item_set(&mut map, "expires".to_string(), Attr::S("1614000600".to_string()));

    let verification = Verification::from_item(&map).unwrap();
    assert_eq!(verification.code, 010203);
    assert_eq!(verification.expires, 1_614_000_600);
}

fn sample_user(id: Id) -> User {
    User {
        id,
        email: EmailAddress::New("test@example.com".to_string()),
        user_name: "testuser".to_string(),
        first_name: "Test".to_string(),
        last_name: "User".to_string(),
        password: "password".to_string(),
        profile_picture: None,
        created_at: 1_700_000_000_000,
        expires: None,
    }
}

#[test]
fn test_generate_code_is_six_digits_and_stored() {
    let mut store = Store::new();
    let user_id = Id::from_str("507f1f77bcf86cd799439011").unwrap();
    let now = 1_700_000_000i64;
    let verification = generate_verification_code(&mut store, user_id, now);
    assert!((100_000..1_000_000).contains(&verification.code));
    assert_eq!(verification.expires, now + 600);
    assert_eq!(verification.user_id, user_id);
    // the stored record is found under the user id's hex blob
    let key = Attr::B(b"507f1f77bcf86cd799439011".to_vec());
    assert!(store.item_exists("user_id", &key));
}

#[test]
fn test_magic_link_flow() {
    let mut store = Store::new();
    let user_id = Id::from_str("507f1f77bcf86cd799439011").unwrap();
    let now = 1_700_000_000i64;
    let verification = generate_verification_code(&mut store, user_id, now);

    let found = verify_magic_link(&store, &verification.magic_id, now + 60).unwrap();
    assert_eq!(found, user_id);

    match verify_magic_link(&store, &verification.magic_id, verification.expires + 1) {
        Err(Error::VerificationCodeExpired) => {}
        _ => panic!("a late magic link must be rejected as expired"),
    }

    match verify_magic_link(&store, &Uuid::new_v4(), now) {
        Err(Error::VerificationCodeNotFound) => {}
        _ => panic!("an unknown magic link must be rejected as not found"),
    }
}

#[test]
fn test_code_flow() {
    let mut store = Store::new();
    let user_id = Id::from_str("507f1f77bcf86cd799439011").unwrap();
    let now = 1_700_000_000i64;
    let verification = generate_verification_code(&mut store, user_id, now);

    assert!(verify_verification_code(&store, &user_id, verification.code).is_ok());
    let wrong = if verification.code == 100_000 {
        100_001
    } else {
        verification.code - 1
    };
    match verify_verification_code(&store, &user_id, wrong) {
        Err(Error::WrongVerificationCode) => {}
        _ => panic!("a wrong code must be rejected"),
    }
    let other = Id::default();
    match verify_verification_code(&store, &other, verification.code) {
        Err(Error::VerificationCodeNotFound) => {}
        _ => panic!("an unknown user must be rejected as not found"),
    }
}

#[test]
fn test_verify_email_marks_user_verified() {
    let mut users = Store::new();
    let mut verifications = Store::new();
    let user_id = Id::from_str("507f1f77bcf86cd799439011").unwrap();
    create_user(&mut users, &sample_user(user_id));
    let now = 1_700_000_000i64;
    let verification = generate_verification_code(&mut verifications, user_id, now);

    let updated = verify_email(
        &mut users,
        &verifications,
        Either::Left(verification.magic_id),
        now,
    )
    .unwrap();
    match updated.email {
        EmailAddress::Verified(address) => assert_eq!(address, "test@example.com"),
        _ => panic!("the email must come back verified"),
    }

    let updated_again = verify_email(
        &mut users,
        &verifications,
        Either::Right((user_id, verification.code)),
        now,
    )
    .unwrap();
    match updated_again.email {
        EmailAddress::Verified(_) => {}
        _ => panic!("the email must stay verified"),
    }
}

#[test]
fn test_error_statuses() {
    assert_eq!(Error::UserNotFound.as_json().0, 404);
    assert_eq!(Error::UserWithEmailAlreadyExists.as_json().0, 409);
    assert_eq!(Error::VerificationCodeNotFound.as_json().0, 404);
    assert_eq!(Error::VerificationCodeExpired.as_json().0, 410);
    assert_eq!(Error::WrongVerificationCode.as_json().0, 400);
    assert_eq!(Error::ConditionFailed.as_json().0, 409);
    assert_eq!(Error::InvalidSignature.as_json().0, 401);
    assert_eq!(Error::InvalidToken.as_json().0, 401);
    assert_eq!(Error::MalformedToken.as_json().0, 400);
    assert_eq!(
        Error::InternalServerError("detail".to_string()).as_json().0,
        500
    );
    let (status, msg) = Error::Custom(418, "teapot".to_string(), "detail".to_string()).as_json();
    assert_eq!(status, 418);
    assert_eq!(msg, "teapot");
    assert_eq!(
        Error::UserNotFound.message(),
        "user not found"
    );
}
