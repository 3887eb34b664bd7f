use trustcore::keys::{Command, KeySet, DEFAULT_EXPIRY_DAYS, SECONDS_PER_DAY};

#[test]
fn test_bootstrap_has_no_previous_key() {
    let now = 1_700_000_000i64;
    let ks = KeySet::create(now, DEFAULT_EXPIRY_DAYS);
    assert!(ks.previous_verify_key.is_none());
    assert_eq!(ks.created_at, now);
    assert_eq!(ks.expires_at, now + 30 * SECONDS_PER_DAY);
    assert!(ks.expires_at > ks.created_at);
}

#[test]
fn test_rotation_lifecycle() {
    // bootstrap, then a premature check is a no-op, then a due check
    // hands the verify key down as the previous key
    let now = 1_700_000_000i64;
    let first = KeySet::next_key_set(None, now, DEFAULT_EXPIRY_DAYS).unwrap();
    assert!(first.previous_verify_key.is_none());
    assert_eq!(first.expires_at, now + 30 * SECONDS_PER_DAY);

    // two hours before expiry: inside the grace window is one day before
    // expiry, so two hours before it rotation is due; but 2 days before
    // expiry it is not
    let early = first.expires_at - 2 * SECONDS_PER_DAY;
    assert!(KeySet::next_key_set(Some(&first), early, DEFAULT_EXPIRY_DAYS).is_none());

    let close = first.expires_at - 2 * 3600;
    let rotated = KeySet::next_key_set(Some(&first), close, DEFAULT_EXPIRY_DAYS).unwrap();
    assert_eq!(rotated.previous_verify_key, Some(first.verify_key));
    assert_ne!(rotated.verify_key, first.verify_key);
    assert_eq!(rotated.expires_at, close + 30 * SECONDS_PER_DAY);

    let late = first.expires_at + 3600;
    let rotated_late = KeySet::next_key_set(Some(&first), late, DEFAULT_EXPIRY_DAYS).unwrap();
    assert_eq!(rotated_late.previous_verify_key, Some(first.verify_key));
}

#[test]
fn test_second_rotation_drops_oldest_key() {
    let now = 1_700_000_000i64;
    let first = KeySet::create(now, 1);
    let second = KeySet::next_key_set(Some(&first), now + 10, 1).unwrap();
    let third = KeySet::next_key_set(Some(&second), now + 20, 1).unwrap();
    assert_eq!(third.previous_verify_key, Some(second.verify_key));
    assert_ne!(third.previous_verify_key, Some(first.verify_key));
}

#[test]
fn test_plan_create_is_unconditional() {
    let now = 1_700_000_000i64;
    let stored = KeySet::create(now, DEFAULT_EXPIRY_DAYS);
    let planned = KeySet::plan(Command::Create, Some(&stored), now, DEFAULT_EXPIRY_DAYS);
    let fresh = planned.unwrap();
    assert!(fresh.previous_verify_key.is_none());
    assert_ne!(fresh.verify_key, stored.verify_key);
}

#[test]
fn test_plan_update_defers_until_due() {
    let now = 1_700_000_000i64;
    let stored = KeySet::create(now, DEFAULT_EXPIRY_DAYS);
    assert!(KeySet::plan(Command::Update, Some(&stored), now, DEFAULT_EXPIRY_DAYS).is_none());
    let bootstrap = KeySet::plan(Command::Update, None, now, DEFAULT_EXPIRY_DAYS).unwrap();
    assert!(bootstrap.previous_verify_key.is_none());
}
