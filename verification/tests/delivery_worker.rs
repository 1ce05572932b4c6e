use zero2prod::delivery_worker::{
    dequeue_task, prepare_delivery, resolve_after_send, DeliveryPlan, SendError,
};
use zero2prod::newsletter::publish_newsletter_with;
use zero2prod::store::{Store, SubscriptionStatus};
use zero2prod::subscriptions::insert_subscriber;

fn store_with_one_queued_task(email: &str) -> Store {
    let mut store = Store::new();
    insert_subscriber(
        &mut store,
        0,
        email.to_string(),
        "le guin".to_string(),
        SubscriptionStatus::Confirmed,
    )
    .unwrap();
    publish_newsletter_with(
        &mut store,
        1,
        "Newsletter title",
        "Newsletter body as plain text",
        "<p>Newsletter body as HTML</p>",
        "abc-123",
        7,
        0,
    )
    .unwrap();
    assert_eq!(store.queue.len(), 1);
    store
}

#[test]
fn dequeue_on_an_empty_queue_claims_nothing() {
    let mut store = Store::new();
    assert!(dequeue_task(&mut store).is_none());
}

#[test]
fn two_workers_never_claim_the_same_task() {
    let mut store = store_with_one_queued_task("ursula_le_guin@gmail.com");

    // The first worker instance claims the only task...
    let claim = dequeue_task(&mut store).expect("the pending task must be claimed");
    assert_eq!(claim.recipient_email, "ursula_le_guin@gmail.com");

    // ...so a concurrently polling second instance claims nothing, and the
    // sender is invoked for the task exactly once.
    assert!(dequeue_task(&mut store).is_none());

    let message = match prepare_delivery(&store, &claim) {
        DeliveryPlan::Deliver(message) => message,
        DeliveryPlan::Discard => panic!("a valid recipient must be delivered to"),
    };
    assert_eq!(message.recipient.as_ref(), "ursula_le_guin@gmail.com");
    assert_eq!(message.subject, "Newsletter title");
    assert_eq!(message.html_content, "<p>Newsletter body as HTML</p>");
    assert_eq!(message.text_content, "Newsletter body as plain text");
    resolve_after_send(&mut store, claim, Ok(()));
    assert_eq!(store.queue.len(), 0);
}

#[test]
fn a_transient_failure_leaves_the_task_for_retry() {
    let mut store = store_with_one_queued_task("ursula_le_guin@gmail.com");
    let mut sends = 0;

    // First pass: the provider fails transiently; the task stays queued.
    let claim = dequeue_task(&mut store).unwrap();
    match prepare_delivery(&store, &claim) {
        DeliveryPlan::Deliver(_) => sends += 1,
        DeliveryPlan::Discard => panic!("a valid recipient must be delivered to"),
    }
    resolve_after_send(&mut store, claim, Err(SendError::Transient));
    assert_eq!(store.queue.len(), 1);

    // Second pass: the same task is claimed again and the send succeeds;
    // the task is gone and the sender was invoked exactly twice.
    let claim = dequeue_task(&mut store).expect("the released task must be claimable again");
    assert_eq!(claim.recipient_email, "ursula_le_guin@gmail.com");
    match prepare_delivery(&store, &claim) {
        DeliveryPlan::Deliver(_) => sends += 1,
        DeliveryPlan::Discard => panic!("a valid recipient must be delivered to"),
    }
    resolve_after_send(&mut store, claim, Ok(()));
    assert_eq!(store.queue.len(), 0);
    assert_eq!(sends, 2);
}

#[test]
fn a_permanent_failure_discards_the_task() {
    let mut store = store_with_one_queued_task("ursula_le_guin@gmail.com");
    let claim = dequeue_task(&mut store).unwrap();
    resolve_after_send(&mut store, claim, Err(SendError::Permanent));
    assert_eq!(store.queue.len(), 0);
    assert!(dequeue_task(&mut store).is_none());
}

#[test]
fn a_malformed_recipient_is_discarded_after_one_attempt() {
    // The stored email no longer parses as an address: the task must be
    // removed without any send and never retried.
    let mut store = store_with_one_queued_task("ursuladomain.com");
    let claim = dequeue_task(&mut store).unwrap();
    match prepare_delivery(&store, &claim) {
        DeliveryPlan::Discard => {}
        DeliveryPlan::Deliver(_) => panic!("a malformed recipient must not be delivered to"),
    }
    resolve_after_send(&mut store, claim, Err(SendError::Permanent));
    assert_eq!(store.queue.len(), 0);
    assert!(dequeue_task(&mut store).is_none());
}
