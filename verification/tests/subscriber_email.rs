use zero2prod::domain::SubscriberEmail;

#[test]
fn valid_emails_are_parsed_successfully() {
    let email = "ursula_le_guin@gmail.com".to_string();
    assert!(SubscriberEmail::parse(email).is_ok());
}

#[test]
fn empty_string_is_rejected() {
    let email = "".to_string();
    assert!(SubscriberEmail::parse(email).is_err());
}

#[test]
fn email_missing_at_symbol_is_rejected() {
    let email = "ursuladomain.com".to_string();
    assert!(SubscriberEmail::parse(email).is_err());
}

#[test]
fn email_missing_subject_is_rejected() {
    let email = "@domain.com".to_string();
    assert!(SubscriberEmail::parse(email).is_err());
}

#[test]
fn parse_error_names_the_rejected_string() {
    let err = SubscriberEmail::parse("ursuladomain.com".to_string()).unwrap_err();
    assert_eq!(err, "ursuladomain.com is not a valid subscriber email.");
}

#[test]
fn parsed_email_keeps_its_characters() {
    let email = SubscriberEmail::parse("ursula_le_guin@gmail.com".to_string()).unwrap();
    assert_eq!(email.as_ref(), "ursula_le_guin@gmail.com");
}
