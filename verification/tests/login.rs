use hmac::Mac;
use zero2prod::login::LoginError;

#[test]
fn login_errors_redirect_with_see_other() {
    assert_eq!(LoginError::AuthError.status_code(), 303);
    assert_eq!(LoginError::UnexpectedError.status_code(), 303);
}

#[test]
fn login_error_messages_name_the_failure() {
    assert_eq!(LoginError::AuthError.message(), "Authentication failed");
    assert_eq!(LoginError::UnexpectedError.message(), "Something went wrong");
}

#[test]
fn the_error_redirect_carries_the_encoded_message_and_its_tag() {
    let secret: &[u8] = &[1u8, 2];
    let location = LoginError::AuthError.error_redirect_location(secret);

    // Recompute the location with the collaborating crates directly.
    let query_string = format!("error={}", urlencoding::encode("Authentication failed"));
    let mut mac: hmac::Hmac<sha2::Sha256> = hmac::Hmac::new_from_slice(secret).unwrap();
    mac.update(query_string.as_bytes());
    let tag = mac.finalize().into_bytes();
    let expected = format!("/login?error={}&tag={:x}", query_string, tag);

    assert_eq!(location, expected);
    assert!(location.starts_with("/login?error=error=Authentication%20failed&tag="));
}

#[test]
fn the_tag_depends_on_the_secret() {
    let with_one = LoginError::AuthError.error_redirect_location(&[1u8, 2]);
    let with_other = LoginError::AuthError.error_redirect_location(&[3u8, 4]);
    assert_ne!(with_one, with_other);
}
