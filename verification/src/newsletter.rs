//! Publishing a newsletter issue: one atomic unit that claims the
//! idempotency key (or discovers it already claimed or completed), creates
//! the issue record, and enqueues one delivery task per currently-confirmed
//! subscriber. Either all of issue, tasks and idempotency completion become
//! durable, or none of them do.

use vstd::prelude::*;

use crate::domain::{email_is_valid, SubscriberEmail};
use crate::idempotency::{
    claim_transition, complete_transition, key_valid, lemma_claim_preserves_wf,
    lemma_claim_then_release, save_response, stored_response_of, try_processing, IdempotencyKey,
    NextAction, Transaction, TransactionView,
};
use crate::response::{see_other, see_other_view, ResponseView, StoredResponse};
use crate::store::{
    current_timestamp, generate_id, has_issue, has_record, record_idx, record_matches,
    DeliveryTask, IssueView, NewsletterIssue, Store, StoreView, SubscriptionStatus,
    SubscriptionView, TaskView,
};

verus! {

/// Why a publish request failed.
#[derive(Debug, PartialEq)]
pub enum PublishError {
    /// The idempotency key is malformed. Rejected before any transaction
    /// begins; the client must fix its input.
    Validation,
    /// Another request with the same (principal, key) is mid-flight. The
    /// caller must wait for it to resolve and re-evaluate, as it would
    /// while blocked on the unique-constraint insert.
    InFlight,
    /// A store constraint was violated outside the deduplication path. The
    /// whole transaction was rolled back, so the client may safely retry.
    Persistence,
}

/// The delivery tasks one publish enqueues: one per confirmed subscriber
/// of the directory, in directory order, all for issue `issue_id`, none
/// locked. A snapshot: subscribers confirmed later do not receive this
/// issue.
pub open spec fn delivery_tasks_for(subs: Seq<SubscriptionView>, issue_id: u128) -> Seq<TaskView>
    decreases subs.len(),
{
    if subs.len() == 0 {
        Seq::empty()
    } else {
        delivery_tasks_for(subs.drop_last(), issue_id) + (if subs.last().status
            is Confirmed {
            seq![
                TaskView {
                    newsletter_issue_id: issue_id,
                    recipient_email: subs.last().email,
                    locked: false,
                },
            ]
        } else {
            Seq::empty()
        })
    }
}

/// One task is enqueued per confirmed subscriber: as many tasks as
/// confirmed emails, whatever issue they deliver.
pub proof fn lemma_one_task_per_confirmed_subscriber(
    subs: Seq<SubscriptionView>,
    issue_id: u128,
)
    ensures
        delivery_tasks_for(subs, issue_id).len() == confirmed_emails(subs).len(),
    decreases subs.len(),
{
    if subs.len() > 0 {
        lemma_one_task_per_confirmed_subscriber(subs.drop_last(), issue_id);
    }
}

/// Every enqueued task delivers issue `issue_id`, is born unlocked, and
/// addresses the email of some confirmed subscriber of the directory.
pub proof fn lemma_delivery_tasks_for_shape(subs: Seq<SubscriptionView>, issue_id: u128)
    ensures
        forall|i: int|
            0 <= i < delivery_tasks_for(subs, issue_id).len() ==> {
                let t = #[trigger] delivery_tasks_for(subs, issue_id)[i];
                &&& t.newsletter_issue_id == issue_id
                &&& !t.locked
                &&& exists|j: int|
                    0 <= j < subs.len() && (#[trigger] subs[j]).email == t.recipient_email
                        && subs[j].status is Confirmed
            },
    decreases subs.len(),
{
    if subs.len() > 0 {
        lemma_delivery_tasks_for_shape(subs.drop_last(), issue_id);
        let prefix = delivery_tasks_for(subs.drop_last(), issue_id);
        assert forall|i: int| 0 <= i < delivery_tasks_for(subs, issue_id).len() implies {
            let t = #[trigger] delivery_tasks_for(subs, issue_id)[i];
            &&& t.newsletter_issue_id == issue_id
            &&& !t.locked
            &&& exists|j: int|
                0 <= j < subs.len() && (#[trigger] subs[j]).email == t.recipient_email
                    && subs[j].status is Confirmed
        } by {
            let t = delivery_tasks_for(subs, issue_id)[i];
            if i < prefix.len() {
                assert(t == prefix[i]);
                let j = choose|j: int|
                    0 <= j < subs.drop_last().len() && (#[trigger] subs.drop_last()[j]).email
                        == prefix[i].recipient_email && subs.drop_last()[j].status is Confirmed;
                assert(subs[j].email == t.recipient_email && subs[j].status is Confirmed);
            } else {
                assert(subs[subs.len() - 1].email == t.recipient_email);
                assert(subs[subs.len() - 1].status is Confirmed);
            }
        }
    }
}

/// If no two subscribers share an email, no two enqueued tasks share a
/// recipient.
pub proof fn lemma_delivery_tasks_for_unique(subs: Seq<SubscriptionView>, issue_id: u128)
    requires
        forall|i: int, j: int|
            #![trigger subs[i], subs[j]]
            0 <= i < subs.len() && 0 <= j < subs.len() && subs[i].email == subs[j].email ==> i
                == j,
    ensures
        forall|i: int, j: int|
            #![trigger delivery_tasks_for(subs, issue_id)[i], delivery_tasks_for(subs, issue_id)[j]]
            0 <= i < delivery_tasks_for(subs, issue_id).len() && 0 <= j < delivery_tasks_for(
                subs,
                issue_id,
            ).len() && delivery_tasks_for(subs, issue_id)[i].recipient_email
                == delivery_tasks_for(subs, issue_id)[j].recipient_email ==> i == j,
    decreases subs.len(),
{
    if subs.len() > 0 {
        let short = subs.drop_last();
        lemma_delivery_tasks_for_unique(short, issue_id);
        lemma_delivery_tasks_for_shape(short, issue_id);
        let tasks = delivery_tasks_for(subs, issue_id);
        let prefix = delivery_tasks_for(short, issue_id);
        assert forall|i: int, j: int|
            0 <= i < tasks.len() && 0 <= j < tasks.len() && (#[trigger] tasks[i]).recipient_email
                == (#[trigger] tasks[j]).recipient_email implies i == j by {
            if i < prefix.len() && j >= prefix.len() {
                let w = choose|w: int|
                    0 <= w < short.len() && (#[trigger] short[w]).email
                        == prefix[i].recipient_email && short[w].status is Confirmed;
                assert(subs[w].email == subs[subs.len() - 1].email);
            }
            if j < prefix.len() && i >= prefix.len() {
                let w = choose|w: int|
                    0 <= w < short.len() && (#[trigger] short[w]).email
                        == prefix[j].recipient_email && short[w].status is Confirmed;
                assert(subs[w].email == subs[subs.len() - 1].email);
            }
        }
    }
}

/// Stages the newsletter issue row in the open transaction, under the
/// given generated id and publication time; it becomes durable only when
/// the transaction commits.
pub fn insert_newsletter_issue(
    transaction: &mut Transaction,
    title: &str,
    text_content: &str,
    html_content: &str,
    newsletter_issue_id: u128,
    published_at: i64,
)
    requires
        old(transaction)@.issue is None,
    ensures
        final(transaction)@ == (TransactionView {
            issue: Some(
                IssueView {
                    newsletter_issue_id,
                    title: title@,
                    text_content: text_content@,
                    html_content: html_content@,
                    published_at,
                },
            ),
            ..old(transaction)@
        }),
{
    transaction.issue = Some(
        NewsletterIssue {
            newsletter_issue_id,
            title: String::from_str(title),
            text_content: String::from_str(text_content),
            html_content: String::from_str(html_content),
            published_at,
        },
    );
    proof {
        assert(transaction@ =~= (TransactionView {
            issue: Some(
                IssueView {
                    newsletter_issue_id,
                    title: title@,
                    text_content: text_content@,
                    html_content: html_content@,
                    published_at,
                },
            ),
            ..old(transaction)@
        }));
    }
}

/// Stages one delivery task per currently-confirmed subscriber, in a
/// single bulk step inside the open transaction: the snapshot of the
/// directory this issue will be delivered to.
pub fn enqueue_delivery_tasks(
    transaction: &mut Transaction,
    store: &Store,
    newsletter_issue_id: u128,
)
    requires
        store@.wf(),
        old(transaction)@.tasks.len() == 0,
        old(transaction)@.issue matches Some(issue) && issue.newsletter_issue_id
            == newsletter_issue_id,
    ensures
        final(transaction)@ == (TransactionView {
            tasks: delivery_tasks_for(store@.subscriptions, newsletter_issue_id),
            ..old(transaction)@
        }),
        final(transaction)@.tasks_wf(),
{
    let n = store.subscriptions.len();
    let mut i: usize = 0;
    while i < n
        invariant
            store@.wf(),
            n == store.subscriptions.len(),
            i <= n,
            transaction@ == (TransactionView {
                tasks: delivery_tasks_for(
                    store@.subscriptions.take(i as int),
                    newsletter_issue_id,
                ),
                ..old(transaction)@
            }),
        decreases n - i,
    {
        let ghost done = store@.subscriptions.take(i as int);
        if store.subscriptions[i].status == SubscriptionStatus::Confirmed {
            let email = store.subscriptions[i].email.clone();
            transaction.tasks.push(
                DeliveryTask { newsletter_issue_id, recipient_email: email, locked: false },
            );
        }
        proof {
            let next = store@.subscriptions.take(i as int + 1);
            assert(next.drop_last() =~= done);
            assert(next.last() == store@.subscriptions[i as int]);
            assert(transaction@.tasks =~= delivery_tasks_for(next, newsletter_issue_id));
            assert(transaction@ =~= (TransactionView {
                tasks: delivery_tasks_for(next, newsletter_issue_id),
                ..old(transaction)@
            }));
        }
        i = i + 1;
    }
    proof {
        assert(store@.subscriptions.take(n as int) =~= store@.subscriptions);
        lemma_delivery_tasks_for_shape(store@.subscriptions, newsletter_issue_id);
        lemma_delivery_tasks_for_unique(store@.subscriptions, newsletter_issue_id);
    }
}

/// What a publish request returns, as a function of the store it meets,
/// the request, and the issue id and time drawn for it: a validation error
/// for a malformed key; the saved response of a completed record; a wait
/// for an in-flight record; a persistence error when the drawn issue id is
/// already taken; and otherwise the redirect that is persisted.
pub open spec fn publish_result(
    s: StoreView,
    user_id: u128,
    key: Seq<char>,
    issue_id: u128,
) -> Result<ResponseView, PublishError> {
    if !key_valid(key) {
        Err(PublishError::Validation)
    } else if has_record(s.records, user_id, key) {
        match stored_response_of(s, user_id, key) {
            Some(resp) => Ok(resp),
            None => Err(PublishError::InFlight),
        }
    } else if has_issue(s.issues, issue_id) {
        Err(PublishError::Persistence)
    } else {
        Ok(see_other_view("/admin/newsletters"@))
    }
}

/// The store a publish request leaves behind: unchanged unless this is the
/// first successful attempt for (user_id, key), in which case the claim,
/// the issue, one task per confirmed subscriber and the saved response all
/// become durable together.
pub open spec fn publish_post(
    s: StoreView,
    user_id: u128,
    key: Seq<char>,
    title: Seq<char>,
    text_content: Seq<char>,
    html_content: Seq<char>,
    issue_id: u128,
    now: i64,
) -> StoreView {
    if !key_valid(key) || has_record(s.records, user_id, key) || has_issue(s.issues, issue_id) {
        s
    } else {
        complete_transition(
            claim_transition(s, user_id, key, now),
            user_id,
            key,
            see_other_view("/admin/newsletters"@),
            IssueView {
                newsletter_issue_id: issue_id,
                title,
                text_content,
                html_content,
                published_at: now,
            },
            delivery_tasks_for(s.subscriptions, issue_id),
        )
    }
}

/// Whether the returned response or error is the one the ghost result
/// prescribes.
pub open spec fn publish_result_matches(
    r: Result<StoredResponse, PublishError>,
    spec_r: Result<ResponseView, PublishError>,
) -> bool {
    match (r, spec_r) {
        (Ok(resp), Ok(v)) => resp@ == v,
        (Err(e), Err(v)) => e == v,
        _ => false,
    }
}

/// Publishes a newsletter issue under the given generated issue id and
/// time: validates the idempotency key, claims it or discovers it already
/// claimed or completed, and on a fresh claim writes the issue, enqueues
/// one delivery task per confirmed subscriber and persists the redirect
/// response, all atomically. A retried or concurrent duplicate replays the
/// saved response or waits; nothing is ever executed twice.
pub fn publish_newsletter_with(
    store: &mut Store,
    user_id: u128,
    title: &str,
    text_content: &str,
    html_content: &str,
    idempotency_key: &str,
    issue_id: u128,
    now: i64,
) -> (r: Result<StoredResponse, PublishError>)
    requires
        old(store)@.wf(),
    ensures
        final(store)@.wf(),
        final(store)@ == publish_post(
            old(store)@,
            user_id,
            idempotency_key@,
            title@,
            text_content@,
            html_content@,
            issue_id,
            now,
        ),
        publish_result_matches(
            r,
            publish_result(old(store)@, user_id, idempotency_key@, issue_id),
        ),
{
    let ghost pre = store@;
    let key = match IdempotencyKey::parse(idempotency_key) {
        Ok(k) => k,
        Err(_) => {
            return Err(PublishError::Validation);
        },
    };
    let mut transaction = match try_processing(store, &key, user_id, now) {
        NextAction::StartProcessing(t) => t,
        NextAction::ReturnSavedResponse(saved) => {
            return Ok(saved);
        },
        NextAction::WaitForCompletion => {
            return Err(PublishError::InFlight);
        },
    };
    insert_newsletter_issue(
        &mut transaction,
        title,
        text_content,
        html_content,
        issue_id,
        now,
    );
    enqueue_delivery_tasks(&mut transaction, &*store, issue_id);
    proof {
        let claimed = claim_transition(pre, user_id, key@, now);
        assert(store@ == claimed);
        assert(record_matches(claimed.records[pre.records.len() as int], user_id, key@));
        assert(has_record(claimed.records, user_id, key@));
        let i = record_idx(claimed.records, user_id, key@);
        assert(record_matches(claimed.records[i], user_id, key@));
        if i < pre.records.len() {
            assert(record_matches(pre.records[i], user_id, key@));
            assert(false);
        }
        assert(stored_response_of(claimed, user_id, key@) is None);
        assert(claimed.subscriptions == pre.subscriptions);
    }
    let response = see_other("/admin/newsletters");
    match save_response(store, transaction, &key, user_id, response) {
        Ok(resp) => {
            proof {
                assert(final(store)@ == publish_post(
                    pre,
                    user_id,
                    idempotency_key@,
                    title@,
                    text_content@,
                    html_content@,
                    issue_id,
                    now,
                ));
            }
            Ok(resp)
        },
        Err(_) => {
            proof {
                lemma_claim_then_release(pre, user_id, key@, now);
            }
            Err(PublishError::Persistence)
        },
    }
}

/// Publishes a newsletter issue, drawing a fresh issue id and the current
/// time. Whatever id and time come back, the store moves by exactly one
/// publish step for them; `publish_newsletter_with` pins that step down.
pub fn publish_newsletter(
    store: &mut Store,
    user_id: u128,
    title: &str,
    text_content: &str,
    html_content: &str,
    idempotency_key: &str,
) -> (r: Result<StoredResponse, PublishError>)
    requires
        old(store)@.wf(),
    ensures
        final(store)@.wf(),
        exists|issue_id: u128, now: i64|
            {
                &&& final(store)@ == #[trigger] publish_post(
                    old(store)@,
                    user_id,
                    idempotency_key@,
                    title@,
                    text_content@,
                    html_content@,
                    issue_id,
                    now,
                )
                &&& publish_result_matches(
                    r,
                    publish_result(old(store)@, user_id, idempotency_key@, issue_id),
                )
            },
{
    let issue_id = generate_id();
    let now = current_timestamp();
    let r = publish_newsletter_with(
        store,
        user_id,
        title,
        text_content,
        html_content,
        idempotency_key,
        issue_id,
        now,
    );
    proof {
        assert(final(store)@ == publish_post(
            old(store)@,
            user_id,
            idempotency_key@,
            title@,
            text_content@,
            html_content@,
            issue_id,
            now,
        ));
    }
    r
}

/// Idempotence of publishing. After a first successful publish of
/// (user_id, key), the store holds exactly one new issue row and one
/// delivery task per subscriber confirmed at that first attempt — and it
/// is a fixed point of the publish step for this pair: repeating the
/// request any number of times, whatever issue id or time each retry
/// draws, changes nothing and returns the byte-identical stored response.
pub proof fn lemma_publish_idempotent(
    s: StoreView,
    user_id: u128,
    key: Seq<char>,
    title: Seq<char>,
    text_content: Seq<char>,
    html_content: Seq<char>,
    issue_id: u128,
    now: i64,
)
    requires
        s.wf(),
        key_valid(key),
        !has_record(s.records, user_id, key),
        !has_issue(s.issues, issue_id),
    ensures
        publish_result(s, user_id, key, issue_id) == Ok::<ResponseView, PublishError>(
            see_other_view("/admin/newsletters"@),
        ),
        ({
            let s1 = publish_post(s, user_id, key, title, text_content, html_content, issue_id, now);
            &&& s1.wf()
            &&& s1.issues.len() == s.issues.len() + 1
            &&& s1.queue.len() == s.queue.len() + confirmed_emails(s.subscriptions).len()
            &&& stored_response_of(s1, user_id, key) == Some(see_other_view("/admin/newsletters"@))
            &&& forall|id2: u128, now2: i64, t2: Seq<char>, x2: Seq<char>, h2: Seq<char>|
                #[trigger] publish_post(s1, user_id, key, t2, x2, h2, id2, now2) == s1
            &&& forall|id2: u128|
                #[trigger] publish_result(s1, user_id, key, id2) == Ok::<
                    ResponseView,
                    PublishError,
                >(see_other_view("/admin/newsletters"@))
        }),
{
    let resp = see_other_view("/admin/newsletters"@);
    let issue = IssueView {
        newsletter_issue_id: issue_id,
        title,
        text_content,
        html_content,
        published_at: now,
    };
    let tasks = delivery_tasks_for(s.subscriptions, issue_id);
    let claimed = claim_transition(s, user_id, key, now);
    let s1 = publish_post(s, user_id, key, title, text_content, html_content, issue_id, now);
    lemma_claim_preserves_wf(s, user_id, key, now);
    let last = s.records.len() as int;
    assert(record_matches(claimed.records[last], user_id, key));
    assert(has_record(claimed.records, user_id, key));
    let w = record_idx(claimed.records, user_id, key);
    assert(record_matches(claimed.records[w], user_id, key));
    assert(w == last);
    lemma_delivery_tasks_for_shape(s.subscriptions, issue_id);
    lemma_delivery_tasks_for_unique(s.subscriptions, issue_id);
    lemma_one_task_per_confirmed_subscriber(s.subscriptions, issue_id);
    crate::idempotency::lemma_complete_preserves_wf(
        claimed,
        user_id,
        key,
        resp,
        issue,
        tasks,
    );
    assert(s1 == crate::idempotency::complete_transition(claimed, user_id, key, resp, issue, tasks));
    assert(s1.records[last].response == Some(resp));
    assert(record_matches(s1.records[last], user_id, key));
    assert(has_record(s1.records, user_id, key));
    let w1 = record_idx(s1.records, user_id, key);
    assert(record_matches(s1.records[w1], user_id, key));
    assert(w1 == last);
    assert(stored_response_of(s1, user_id, key) == Some(resp));
}

/// Concurrent-duplicate safety. While one request holds the in-flight
/// claim on (user_id, key), a duplicate request changes nothing and is
/// told to wait, whatever issue id or time it draws; once the first
/// request commits, the duplicate replays the identical stored response
/// and still changes nothing. Exactly one newsletter issue row exists
/// afterwards for the pair.
pub proof fn lemma_concurrent_duplicate_safe(
    s: StoreView,
    user_id: u128,
    key: Seq<char>,
    title: Seq<char>,
    text_content: Seq<char>,
    html_content: Seq<char>,
    issue_id: u128,
    now: i64,
)
    requires
        s.wf(),
        key_valid(key),
        !has_record(s.records, user_id, key),
        !has_issue(s.issues, issue_id),
    ensures
        ({
            // While the first request's claim is in flight, the duplicate
            // waits and leaves the store untouched.
            let mid = claim_transition(s, user_id, key, now);
            &&& forall|id2: u128, now2: i64, t2: Seq<char>, x2: Seq<char>, h2: Seq<char>|
                #[trigger] publish_post(mid, user_id, key, t2, x2, h2, id2, now2) == mid
            &&& forall|id2: u128|
                #[trigger] publish_result(mid, user_id, key, id2) == Err::<
                    ResponseView,
                    PublishError,
                >(PublishError::InFlight)
        }),
        ({
            // Once the first request commits, the duplicate replays its
            // exact response, and exactly one issue row was created.
            let s1 = publish_post(s, user_id, key, title, text_content, html_content, issue_id, now);
            &&& s1.issues.len() == s.issues.len() + 1
            &&& publish_result(s, user_id, key, issue_id) == Ok::<ResponseView, PublishError>(
                see_other_view("/admin/newsletters"@),
            )
            &&& forall|id2: u128|
                #[trigger] publish_result(s1, user_id, key, id2) == Ok::<
                    ResponseView,
                    PublishError,
                >(see_other_view("/admin/newsletters"@))
            &&& forall|id2: u128, now2: i64, t2: Seq<char>, x2: Seq<char>, h2: Seq<char>|
                #[trigger] publish_post(s1, user_id, key, t2, x2, h2, id2, now2) == s1
        }),
{
    let mid = claim_transition(s, user_id, key, now);
    lemma_claim_preserves_wf(s, user_id, key, now);
    let last = s.records.len() as int;
    assert(record_matches(mid.records[last], user_id, key));
    assert(has_record(mid.records, user_id, key));
    let w = record_idx(mid.records, user_id, key);
    assert(record_matches(mid.records[w], user_id, key));
    assert(w == last);
    assert(stored_response_of(mid, user_id, key) is None);
    lemma_publish_idempotent(s, user_id, key, title, text_content, html_content, issue_id, now);
}

/// One confirmed subscriber of the directory.
#[derive(Debug)]
pub struct ConfirmedSubscriber {
    pub email: SubscriberEmail,
}

/// The emails of the confirmed subscribers, in directory order.
pub open spec fn confirmed_emails(subs: Seq<SubscriptionView>) -> Seq<Seq<char>>
    decreases subs.len(),
{
    if subs.len() == 0 {
        Seq::empty()
    } else {
        confirmed_emails(subs.drop_last()) + (if subs.last().status is Confirmed {
            seq![subs.last().email]
        } else {
            Seq::empty()
        })
    }
}

/// Lists the confirmed subscribers, re-validating each stored email: one
/// entry per confirmed row of the directory, in order, carrying either the
/// parsed address or the error message for a stored email that no longer
/// passes validation.
pub fn get_confirmed_subscribers(store: &Store) -> (r: Vec<
    Result<ConfirmedSubscriber, String>,
>)
    ensures
        r@.len() == confirmed_emails(store@.subscriptions).len(),
        forall|i: int|
            0 <= i < r@.len() ==> {
                let email = confirmed_emails(store@.subscriptions)[i];
                match #[trigger] r@[i] {
                    Ok(c) => email_is_valid(email) && c.email@ == email,
                    Err(m) => !email_is_valid(email) && m@ == email
                        + " is not a valid subscriber email."@,
                }
            },
{
    let mut r: Vec<Result<ConfirmedSubscriber, String>> = Vec::new();
    let n = store.subscriptions.len();
    let mut i: usize = 0;
    while i < n
        invariant
            n == store.subscriptions.len(),
            i <= n,
            r@.len() == confirmed_emails(store@.subscriptions.take(i as int)).len(),
            forall|k: int|
                0 <= k < r@.len() ==> {
                    let email = confirmed_emails(store@.subscriptions.take(i as int))[k];
                    match #[trigger] r@[k] {
                        Ok(c) => email_is_valid(email) && c.email@ == email,
                        Err(m) => !email_is_valid(email) && m@ == email
                            + " is not a valid subscriber email."@,
                    }
                },
        decreases n - i,
    {
        let ghost done = store@.subscriptions.take(i as int);
        if store.subscriptions[i].status == SubscriptionStatus::Confirmed {
            let email = store.subscriptions[i].email.clone();
            match SubscriberEmail::parse(email) {
                Ok(parsed) => r.push(Ok(ConfirmedSubscriber { email: parsed })),
                Err(message) => r.push(Err(message)),
            }
        }
        proof {
            let next = store@.subscriptions.take(i as int + 1);
            assert(next.drop_last() =~= done);
            assert(next.last() == store@.subscriptions[i as int]);
        }
        i = i + 1;
    }
    proof {
        assert(store@.subscriptions.take(n as int) =~= store@.subscriptions);
    }
    r
}

} // verus!
