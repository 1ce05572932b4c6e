use zero2prod::delivery_worker::{
    dequeue_task, prepare_delivery, resolve_after_send, DeliveryPlan, SendError,
};
use zero2prod::idempotency::{
    rollback, save_response, try_processing, IdempotencyKey, NextAction,
};
use zero2prod::newsletter::{
    enqueue_delivery_tasks, insert_newsletter_issue, publish_newsletter, publish_newsletter_with,
    PublishError,
};
use zero2prod::response::see_other;
use zero2prod::store::{Store, SubscriptionStatus};
use zero2prod::subscriptions::insert_subscriber;

fn store_with_confirmed_subscribers(emails: &[&str]) -> Store {
    let mut store = Store::new();
    for (i, email) in emails.iter().enumerate() {
        insert_subscriber(
            &mut store,
            i as u128,
            email.to_string(),
            format!("subscriber {}", i),
            SubscriptionStatus::Confirmed,
        )
        .unwrap();
    }
    store
}

/// Runs the delivery worker loop until the queue is drained, feeding the
/// sender the given outcomes (and success once they run out). Returns the
/// recipients of the emails actually handed to the sender, in order.
fn drain_queue(store: &mut Store, mut outcomes: Vec<Result<(), SendError>>) -> Vec<String> {
    let mut sent = Vec::new();
    loop {
        let task = match dequeue_task(store) {
            Some(task) => task,
            None => break,
        };
        match prepare_delivery(store, &task) {
            DeliveryPlan::Deliver(message) => {
                let outcome = if outcomes.is_empty() { Ok(()) } else { outcomes.remove(0) };
                sent.push(message.recipient.as_ref().to_string());
                resolve_after_send(store, task, outcome);
            }
            DeliveryPlan::Discard => {
                resolve_after_send(store, task, Err(SendError::Permanent));
            }
        }
    }
    sent
}

#[test]
fn newsletter_creation_is_idempotent() {
    let mut store = store_with_confirmed_subscribers(&["ursula_le_guin@gmail.com"]);
    let first = publish_newsletter(
        &mut store,
        1,
        "Newsletter title",
        "Newsletter body as plain text",
        "<p>Newsletter body as HTML</p>",
        "abc-123",
    )
    .unwrap();
    assert_eq!(first.status_code, 303);
    assert_eq!(first.headers.len(), 1);
    assert_eq!(first.headers[0].name, "Location");
    assert_eq!(first.headers[0].value, "/admin/newsletters");
    assert_eq!(store.issues.len(), 1);
    assert_eq!(store.queue.len(), 1);

    // The retried request replays the byte-identical response and changes
    // nothing.
    let second = publish_newsletter(
        &mut store,
        1,
        "Newsletter title",
        "Newsletter body as plain text",
        "<p>Newsletter body as HTML</p>",
        "abc-123",
    )
    .unwrap();
    assert_eq!(first, second);
    assert_eq!(store.issues.len(), 1);
    assert_eq!(store.queue.len(), 1);

    // After the worker drains, the one subscriber got exactly one email.
    let sent = drain_queue(&mut store, Vec::new());
    assert_eq!(sent, vec!["ursula_le_guin@gmail.com".to_string()]);
    assert_eq!(store.queue.len(), 0);
}

#[test]
fn concurrent_form_submission_is_handled_gracefully() {
    let mut store = store_with_confirmed_subscribers(&["ursula_le_guin@gmail.com"]);
    let key = IdempotencyKey::parse("abc-123").unwrap();

    // The first request claims the key and is still mid-flight.
    let transaction = match try_processing(&mut store, &key, 1, 0) {
        NextAction::StartProcessing(t) => t,
        _ => panic!("the unclaimed key must be claimed"),
    };

    // The duplicate submission observes the in-flight claim and must wait.
    match try_processing(&mut store, &key, 1, 0) {
        NextAction::WaitForCompletion => {}
        _ => panic!("a duplicate of an in-flight request must wait"),
    }

    // The first request completes under its claim: issue and tasks are
    // staged and committed together with the response.
    let mut transaction = transaction;
    insert_newsletter_issue(
        &mut transaction,
        "Newsletter title",
        "Newsletter body as plain text",
        "<p>Newsletter body as HTML</p>",
        99,
        0,
    );
    enqueue_delivery_tasks(&mut transaction, &store, 99);
    let first = save_response(&mut store, transaction, &key, 1, see_other("/admin/newsletters"))
        .unwrap();

    // The duplicate now replays the identical response; only one issue
    // exists.
    let second = publish_newsletter_with(
        &mut store,
        1,
        "Newsletter title",
        "Newsletter body as plain text",
        "<p>Newsletter body as HTML</p>",
        "abc-123",
        100,
        1,
    )
    .unwrap();
    assert_eq!(first, second);
    assert_eq!(store.issues.len(), 1);
    assert_eq!(store.queue.len(), 1);
}

#[test]
fn transient_errors_do_not_cause_duplicate_deliveries_on_retries() {
    let mut store =
        store_with_confirmed_subscribers(&["ursula_le_guin@gmail.com", "bob@example.com"]);
    let first = publish_newsletter(
        &mut store,
        1,
        "Newsletter title",
        "Newsletter body as plain text",
        "<p>Newsletter body as HTML</p>",
        "retry-1",
    )
    .unwrap();

    // The client retries the whole form after a failure it saw; the retry
    // must not enqueue anything again.
    let second = publish_newsletter(
        &mut store,
        1,
        "Newsletter title",
        "Newsletter body as plain text",
        "<p>Newsletter body as HTML</p>",
        "retry-1",
    )
    .unwrap();
    assert_eq!(first, second);
    assert_eq!(store.queue.len(), 2);

    // The provider fails the first send transiently; every recipient still
    // receives the issue exactly once.
    let sent = drain_queue(&mut store, vec![Err(SendError::Transient)]);
    let mut per_recipient = std::collections::BTreeMap::new();
    for recipient in &sent {
        *per_recipient.entry(recipient.clone()).or_insert(0) += 1;
    }
    assert_eq!(sent.len(), 3, "one failed attempt and two deliveries");
    assert_eq!(per_recipient.len(), 2);
    assert_eq!(store.queue.len(), 0);
}

#[test]
fn publish_with_two_confirmed_subscribers_sends_one_email_each() {
    let mut store =
        store_with_confirmed_subscribers(&["ursula_le_guin@gmail.com", "bob@example.com"]);
    publish_newsletter_with(
        &mut store,
        1,
        "Newsletter title",
        "Newsletter body as plain text",
        "<p>Newsletter body as HTML</p>",
        "abc-123",
        7,
        0,
    )
    .unwrap();
    assert_eq!(store.issues.len(), 1);
    assert_eq!(store.queue.len(), 2);

    let sent = drain_queue(&mut store, Vec::new());
    assert_eq!(store.queue.len(), 0);
    assert_eq!(sent.len(), 2);
    assert!(sent.contains(&"ursula_le_guin@gmail.com".to_string()));
    assert!(sent.contains(&"bob@example.com".to_string()));
}

#[test]
fn newsletters_are_not_delivered_to_unconfirmed_subscribers() {
    let mut store = Store::new();
    insert_subscriber(
        &mut store,
        0,
        "ursula_le_guin@gmail.com".to_string(),
        "le guin".to_string(),
        SubscriptionStatus::PendingConfirmation,
    )
    .unwrap();
    publish_newsletter(
        &mut store,
        1,
        "Newsletter title",
        "Newsletter body as plain text",
        "<p>Newsletter body as HTML</p>",
        "abc-123",
    )
    .unwrap();
    assert_eq!(store.issues.len(), 1);
    assert_eq!(store.queue.len(), 0);
    let sent = drain_queue(&mut store, Vec::new());
    assert!(sent.is_empty());
}

#[test]
fn newsletters_are_delivered_to_confirmed_subscribers() {
    let mut store = store_with_confirmed_subscribers(&["ursula_le_guin@gmail.com"]);
    publish_newsletter(
        &mut store,
        1,
        "Newsletter title",
        "Newsletter body as plain text",
        "<p>Newsletter body as HTML</p>",
        "abc-123",
    )
    .unwrap();
    assert_eq!(store.queue.len(), 1);
    let sent = drain_queue(&mut store, Vec::new());
    assert_eq!(sent, vec!["ursula_le_guin@gmail.com".to_string()]);
}

#[test]
fn a_malformed_idempotency_key_is_rejected_before_any_effect() {
    let mut store = store_with_confirmed_subscribers(&["ursula_le_guin@gmail.com"]);
    for bad in ["", "has space", "way!", &"x".repeat(51)] {
        let r = publish_newsletter(
            &mut store,
            1,
            "Newsletter title",
            "Newsletter body as plain text",
            "<p>Newsletter body as HTML</p>",
            bad,
        );
        assert_eq!(r.unwrap_err(), PublishError::Validation);
        assert_eq!(store.issues.len(), 0);
        assert_eq!(store.queue.len(), 0);
        assert_eq!(store.records.len(), 0);
    }
}

#[test]
fn an_aborted_publish_leaves_no_trace_and_frees_the_key() {
    let mut store = store_with_confirmed_subscribers(&["ursula_le_guin@gmail.com"]);
    let key = IdempotencyKey::parse("abc-123").unwrap();

    // A claim whose transaction fails before completion is rolled back.
    let transaction = match try_processing(&mut store, &key, 1, 0) {
        NextAction::StartProcessing(t) => t,
        _ => panic!("the unclaimed key must be claimed"),
    };
    rollback(&mut store, transaction);
    assert_eq!(store.records.len(), 0);
    assert_eq!(store.issues.len(), 0);
    assert_eq!(store.queue.len(), 0);

    // The key is free: a fresh attempt succeeds as a first attempt.
    let r = publish_newsletter(
        &mut store,
        1,
        "Newsletter title",
        "Newsletter body as plain text",
        "<p>Newsletter body as HTML</p>",
        "abc-123",
    );
    assert!(r.is_ok());
    assert_eq!(store.issues.len(), 1);
    assert_eq!(store.queue.len(), 1);
}

#[test]
fn a_publish_under_a_taken_issue_id_rolls_back_whole() {
    let mut store = store_with_confirmed_subscribers(&["ursula_le_guin@gmail.com"]);
    publish_newsletter_with(
        &mut store, 1, "first", "text", "html", "key-1", 42, 0,
    )
    .unwrap();
    // A second publish that draws the same issue id hits the uniqueness
    // constraint; nothing of it survives and its key is free again.
    let r = publish_newsletter_with(
        &mut store, 1, "second", "text", "html", "key-2", 42, 1,
    );
    assert_eq!(r.unwrap_err(), PublishError::Persistence);
    assert_eq!(store.issues.len(), 1);
    assert_eq!(store.records.len(), 1);
    let retry = publish_newsletter_with(
        &mut store, 1, "second", "text", "html", "key-2", 43, 2,
    );
    assert!(retry.is_ok());
    assert_eq!(store.issues.len(), 2);
}
