use zero2prod::newsletter::get_confirmed_subscribers;
use zero2prod::response::see_other;
use zero2prod::store::{Store, SubscriptionStatus};
use zero2prod::subscriptions::{insert_subscriber, subscribe};

#[test]
fn subscribe_adds_a_row_to_the_directory() {
    let mut store = Store::new();
    subscribe(
        &mut store,
        "ursula_le_guin@gmail.com".to_string(),
        "le guin".to_string(),
        SubscriptionStatus::Confirmed,
    )
    .unwrap();
    assert_eq!(store.subscriptions.len(), 1);
    assert_eq!(store.subscriptions[0].email, "ursula_le_guin@gmail.com");
    assert_eq!(store.subscriptions[0].name, "le guin");
}

#[test]
fn a_duplicate_email_is_rejected_and_changes_nothing() {
    let mut store = Store::new();
    subscribe(
        &mut store,
        "ursula_le_guin@gmail.com".to_string(),
        "le guin".to_string(),
        SubscriptionStatus::Confirmed,
    )
    .unwrap();
    let r = subscribe(
        &mut store,
        "ursula_le_guin@gmail.com".to_string(),
        "someone else".to_string(),
        SubscriptionStatus::Confirmed,
    );
    assert!(r.is_err());
    assert_eq!(store.subscriptions.len(), 1);
    assert_eq!(store.subscriptions[0].name, "le guin");
}

#[test]
fn only_confirmed_subscribers_are_listed() {
    let mut store = Store::new();
    insert_subscriber(
        &mut store,
        0,
        "confirmed@example.com".to_string(),
        "a".to_string(),
        SubscriptionStatus::Confirmed,
    )
    .unwrap();
    insert_subscriber(
        &mut store,
        1,
        "pending@example.com".to_string(),
        "b".to_string(),
        SubscriptionStatus::PendingConfirmation,
    )
    .unwrap();
    let listed = get_confirmed_subscribers(&store);
    assert_eq!(listed.len(), 1);
    assert_eq!(listed[0].as_ref().unwrap().email.as_ref(), "confirmed@example.com");
}

#[test]
fn a_stored_email_that_no_longer_parses_is_reported() {
    let mut store = Store::new();
    insert_subscriber(
        &mut store,
        0,
        "not-an-address".to_string(),
        "a".to_string(),
        SubscriptionStatus::Confirmed,
    )
    .unwrap();
    let listed = get_confirmed_subscribers(&store);
    assert_eq!(listed.len(), 1);
    assert_eq!(
        listed[0].as_ref().unwrap_err(),
        "not-an-address is not a valid subscriber email."
    );
}

#[test]
fn see_other_builds_the_redirect_that_is_persisted() {
    let response = see_other("/admin/newsletters");
    assert_eq!(response.status_code, 303);
    assert_eq!(response.headers.len(), 1);
    assert_eq!(response.headers[0].name, "Location");
    assert_eq!(response.headers[0].value, "/admin/newsletters");
    assert!(response.body.is_empty());
}
