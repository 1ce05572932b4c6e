use zero2prod::idempotency::IdempotencyKey;

#[test]
fn a_well_formed_key_is_accepted() {
    let key = IdempotencyKey::parse("abc-123").unwrap();
    assert_eq!(key.as_str(), "abc-123");
}

#[test]
fn an_empty_key_is_rejected() {
    assert!(IdempotencyKey::parse("").is_err());
}

#[test]
fn a_key_longer_than_fifty_characters_is_rejected() {
    let long = "a".repeat(51);
    assert!(IdempotencyKey::parse(&long).is_err());
}

#[test]
fn a_key_of_exactly_fifty_characters_is_accepted() {
    let edge = "a".repeat(50);
    assert!(IdempotencyKey::parse(&edge).is_ok());
}

#[test]
fn a_key_with_characters_outside_the_allowed_set_is_rejected() {
    assert!(IdempotencyKey::parse("abc 123").is_err());
    assert!(IdempotencyKey::parse("abc_123").is_err());
    assert!(IdempotencyKey::parse("abc!").is_err());
}
