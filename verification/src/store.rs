//! The durable state the core coordinates through: idempotency records,
//! newsletter issues, the delivery queue and the subscriber directory.
//!
//! The database is the single source of truth of the system; this module
//! models its four tables as plain values together with the invariants the
//! schema enforces (uniqueness of keys) so that the transitions on them can
//! be verified. A row lock held by an in-flight claim appears here too: an
//! idempotency record whose response is still absent, and a delivery task
//! whose `locked` flag is set, stand for rows locked by an open transaction.

use vstd::prelude::*;

use crate::response::{ResponseView, StoredResponse};

verus! {

/// A uniqueness constraint of the store was violated outside the expected
/// deduplication path. The transaction that hit it is rolled back, so no
/// partial state survives and the caller may safely retry.
#[derive(Debug, PartialEq)]
pub struct PersistenceError;

/// Whether a subscriber has confirmed their subscription. Only confirmed
/// subscribers receive newsletter issues.
#[derive(Clone, Copy, Debug, PartialEq, Eq, Structural)]
pub enum SubscriptionStatus {
    PendingConfirmation,
    Confirmed,
}

/// A row of the subscriber directory.
#[derive(Debug)]
pub struct Subscription {
    pub id: u128,
    pub email: String,
    pub name: String,
    pub status: SubscriptionStatus,
}

/// The ghost image of a subscription.
#[verifier::ext_equal]
pub struct SubscriptionView {
    pub id: u128,
    pub email: Seq<char>,
    pub name: Seq<char>,
    pub status: SubscriptionStatus,
}

impl View for Subscription {
    type V = SubscriptionView;

    open spec fn view(&self) -> SubscriptionView {
        SubscriptionView {
            id: self.id,
            email: self.email@,
            name: self.name@,
            status: self.status,
        }
    }
}

/// A published newsletter issue. Immutable after creation; created exactly
/// once per successful publish transaction.
#[derive(Debug)]
pub struct NewsletterIssue {
    pub newsletter_issue_id: u128,
    pub title: String,
    pub text_content: String,
    pub html_content: String,
    pub published_at: i64,
}

/// The ghost image of a newsletter issue.
#[verifier::ext_equal]
pub struct IssueView {
    pub newsletter_issue_id: u128,
    pub title: Seq<char>,
    pub text_content: Seq<char>,
    pub html_content: Seq<char>,
    pub published_at: i64,
}

impl View for NewsletterIssue {
    type V = IssueView;

    open spec fn view(&self) -> IssueView {
        IssueView {
            newsletter_issue_id: self.newsletter_issue_id,
            title: self.title@,
            text_content: self.text_content@,
            html_content: self.html_content@,
            published_at: self.published_at,
        }
    }
}

/// One pending delivery: an (issue, recipient) pair. `locked` models the
/// row lock an in-flight worker transaction holds on the task it claimed.
#[derive(Debug)]
pub struct DeliveryTask {
    pub newsletter_issue_id: u128,
    pub recipient_email: String,
    pub locked: bool,
}

/// The ghost image of a delivery task.
#[verifier::ext_equal]
pub struct TaskView {
    pub newsletter_issue_id: u128,
    pub recipient_email: Seq<char>,
    pub locked: bool,
}

impl View for DeliveryTask {
    type V = TaskView;

    open spec fn view(&self) -> TaskView {
        TaskView {
            newsletter_issue_id: self.newsletter_issue_id,
            recipient_email: self.recipient_email@,
            locked: self.locked,
        }
    }
}

/// A row of the idempotency store, uniquely identified by
/// (principal_id, idempotency_key). The response is absent while the claim
/// is in flight and filled in when the claiming transaction commits.
#[derive(Debug)]
pub struct IdempotencyRecord {
    pub principal_id: u128,
    pub idempotency_key: String,
    pub response: Option<StoredResponse>,
    pub created_at: i64,
}

/// The ghost image of an idempotency record.
#[verifier::ext_equal]
pub struct RecordView {
    pub principal_id: u128,
    pub idempotency_key: Seq<char>,
    pub response: Option<ResponseView>,
    pub created_at: i64,
}

impl View for IdempotencyRecord {
    type V = RecordView;

    open spec fn view(&self) -> RecordView {
        RecordView {
            principal_id: self.principal_id,
            idempotency_key: self.idempotency_key@,
            response: match self.response {
                Some(r) => Some(r@),
                None => None,
            },
            created_at: self.created_at,
        }
    }
}

/// The whole persisted state: the three tables of the core plus the
/// subscriber directory it reads.
#[derive(Debug)]
pub struct Store {
    pub records: Vec<IdempotencyRecord>,
    pub issues: Vec<NewsletterIssue>,
    pub queue: Vec<DeliveryTask>,
    pub subscriptions: Vec<Subscription>,
}

/// The ghost image of the store.
#[verifier::ext_equal]
pub struct StoreView {
    pub records: Seq<RecordView>,
    pub issues: Seq<IssueView>,
    pub queue: Seq<TaskView>,
    pub subscriptions: Seq<SubscriptionView>,
}

impl View for Store {
    type V = StoreView;

    open spec fn view(&self) -> StoreView {
        StoreView {
            records: self.records@.map_values(|r: IdempotencyRecord| r@),
            issues: self.issues@.map_values(|r: NewsletterIssue| r@),
            queue: self.queue@.map_values(|r: DeliveryTask| r@),
            subscriptions: self.subscriptions@.map_values(|r: Subscription| r@),
        }
    }
}

/// Whether record `r` belongs to the pair (principal_id, key).
pub open spec fn record_matches(r: RecordView, principal_id: u128, key: Seq<char>) -> bool {
    r.principal_id == principal_id && r.idempotency_key == key
}

/// Whether some record belongs to the pair (principal_id, key).
pub open spec fn has_record(records: Seq<RecordView>, principal_id: u128, key: Seq<char>) -> bool {
    exists|i: int| 0 <= i < records.len() && record_matches(#[trigger] records[i], principal_id, key)
}

/// The index of the record of (principal_id, key); meaningful only when
/// `has_record` holds, and unique when the records are well formed.
pub open spec fn record_idx(records: Seq<RecordView>, principal_id: u128, key: Seq<char>) -> int {
    choose|i: int| 0 <= i < records.len() && record_matches(#[trigger] records[i], principal_id, key)
}

/// Whether some issue has the given id.
pub open spec fn has_issue(issues: Seq<IssueView>, id: u128) -> bool {
    exists|i: int| 0 <= i < issues.len() && (#[trigger] issues[i]).newsletter_issue_id == id
}

/// The index of the issue with the given id; meaningful only when
/// `has_issue` holds.
pub open spec fn issue_idx(issues: Seq<IssueView>, id: u128) -> int {
    choose|i: int| 0 <= i < issues.len() && (#[trigger] issues[i]).newsletter_issue_id == id
}

/// Whether task `t` is the delivery of issue `issue_id` to `email`.
pub open spec fn task_matches(t: TaskView, issue_id: u128, email: Seq<char>) -> bool {
    t.newsletter_issue_id == issue_id && t.recipient_email == email
}

/// Whether the queue holds a task for (issue_id, email).
pub open spec fn has_task(queue: Seq<TaskView>, issue_id: u128, email: Seq<char>) -> bool {
    exists|i: int| 0 <= i < queue.len() && task_matches(#[trigger] queue[i], issue_id, email)
}

/// The index of the task for (issue_id, email); meaningful only when
/// `has_task` holds, and unique when the queue is well formed.
pub open spec fn task_idx(queue: Seq<TaskView>, issue_id: u128, email: Seq<char>) -> int {
    choose|i: int| 0 <= i < queue.len() && task_matches(#[trigger] queue[i], issue_id, email)
}

/// Whether the directory holds a subscriber with the given email.
pub open spec fn has_subscriber(subs: Seq<SubscriptionView>, email: Seq<char>) -> bool {
    exists|i: int| 0 <= i < subs.len() && (#[trigger] subs[i]).email == email
}

impl StoreView {
    /// No two idempotency records share (principal_id, idempotency_key):
    /// the uniqueness constraint that is the concurrency-control primitive.
    pub open spec fn records_unique(self) -> bool {
        forall|i: int, j: int|
            #![trigger self.records[i], self.records[j]]
            0 <= i < self.records.len() && 0 <= j < self.records.len()
                && self.records[i].principal_id == self.records[j].principal_id
                && self.records[i].idempotency_key == self.records[j].idempotency_key ==> i == j
    }

    /// Newsletter issue ids are unique.
    pub open spec fn issues_unique(self) -> bool {
        forall|i: int, j: int|
            #![trigger self.issues[i], self.issues[j]]
            0 <= i < self.issues.len() && 0 <= j < self.issues.len()
                && self.issues[i].newsletter_issue_id == self.issues[j].newsletter_issue_id ==> i
                == j
    }

    /// No two delivery tasks share (newsletter_issue_id, recipient_email).
    pub open spec fn queue_unique(self) -> bool {
        forall|i: int, j: int|
            #![trigger self.queue[i], self.queue[j]]
            0 <= i < self.queue.len() && 0 <= j < self.queue.len()
                && self.queue[i].newsletter_issue_id == self.queue[j].newsletter_issue_id
                && self.queue[i].recipient_email == self.queue[j].recipient_email ==> i == j
    }

    /// Every delivery task references an existing issue.
    pub open spec fn queue_refs_issues(self) -> bool {
        forall|i: int|
            0 <= i < self.queue.len() ==> has_issue(
                self.issues,
                (#[trigger] self.queue[i]).newsletter_issue_id,
            )
    }

    /// Subscriber emails are unique.
    pub open spec fn subscribers_unique(self) -> bool {
        forall|i: int, j: int|
            #![trigger self.subscriptions[i], self.subscriptions[j]]
            0 <= i < self.subscriptions.len() && 0 <= j < self.subscriptions.len()
                && self.subscriptions[i].email == self.subscriptions[j].email ==> i == j
    }

    /// The well-formedness of the store: the uniqueness constraints the
    /// schema enforces, which every transition preserves.
    pub open spec fn wf(self) -> bool {
        &&& self.records_unique()
        &&& self.issues_unique()
        &&& self.queue_unique()
        &&& self.queue_refs_issues()
        &&& self.subscribers_unique()
    }

    /// The store with no rows at all.
    pub open spec fn empty() -> StoreView {
        StoreView {
            records: Seq::empty(),
            issues: Seq::empty(),
            queue: Seq::empty(),
            subscriptions: Seq::empty(),
        }
    }
}

/// Relies on uuid::Uuid::new_v4 for a freshly generated random id, taken
/// as its 128-bit value. Nothing is assumed of the value; callers handle
/// collisions themselves.
#[verifier::external_body]
pub(crate) fn generate_id() -> (r: u128) {
    uuid::Uuid::new_v4().as_u128()
}

/// Relies on chrono::Utc::now for the current time, in seconds since the
/// epoch. Nothing is assumed of the value.
#[verifier::external_body]
pub(crate) fn current_timestamp() -> (r: i64) {
    chrono::Utc::now().timestamp()
}

impl Store {
    /// A store with no rows; trivially well formed.
    pub fn new() -> (r: Store)
        ensures
            r@ == StoreView::empty(),
            r@.wf(),
    {
        let r = Store {
            records: Vec::new(),
            issues: Vec::new(),
            queue: Vec::new(),
            subscriptions: Vec::new(),
        };
        proof {
            assert(r@ =~= StoreView::empty());
        }
        r
    }
}

} // verus!
