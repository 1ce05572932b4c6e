//! Idempotent request processing: deduplicating a logical publish operation
//! keyed by a client-supplied idempotency token plus the acting principal,
//! so that retried requests replay the original response instead of
//! re-executing side effects.
//!
//! The claim protocol works on the store model: claiming (principal, key)
//! inserts a placeholder record whose response is still absent; the record
//! doubles as the row lock the open transaction holds. Completing fills the
//! response in and makes the transaction's pending writes durable, all at
//! once; rolling back removes the placeholder so a later retry is treated
//! as a fresh first attempt. A caller that finds a placeholder of another
//! in-flight request must wait for that request to resolve and re-evaluate,
//! as a blocked unique-constraint insert would.

use vstd::prelude::*;

use crate::response::{ResponseView, StoredResponse};
use crate::store::{
    has_issue, has_record, issue_idx, record_idx, record_matches, DeliveryTask, IdempotencyRecord, IssueView,
    NewsletterIssue, PersistenceError, RecordView, Store, StoreView, TaskView,
};

verus! {

/// The idempotency key was empty, too long, or held a character outside
/// the allowed set; the request is rejected before any transaction begins.
#[derive(Debug, PartialEq)]
pub struct ValidationError;

/// Whether `c` is allowed in an idempotency key: ASCII alphanumeric or
/// hyphen.
pub open spec fn is_key_char(c: char) -> bool {
    let u = c as u32;
    (97 <= u && u <= 122) || (65 <= u && u <= 90) || (48 <= u && u <= 57) || u == 45
}

/// Whether `key` is a well-formed idempotency key: non-empty, at most 50
/// characters, alphanumerics and hyphens only.
pub open spec fn key_valid(key: Seq<char>) -> bool {
    0 < key.len() <= 50 && forall|i: int| 0 <= i < key.len() ==> is_key_char(#[trigger] key[i])
}

/// A validated idempotency key: the client-supplied token identifying a
/// logical publish operation. Immutable once constructed.
#[derive(Debug)]
pub struct IdempotencyKey {
    key: String,
}

impl View for IdempotencyKey {
    type V = Seq<char>;

    closed spec fn view(&self) -> Seq<char> {
        self.key@
    }
}

impl IdempotencyKey {
    /// Validates and wraps a key. Returns exactly when the key is
    /// non-empty, at most 50 characters, and made of alphanumerics and
    /// hyphens only; rejected keys cause no other effect.
    pub fn parse(s: &str) -> (r: Result<IdempotencyKey, ValidationError>)
        ensures
            r is Ok <==> key_valid(s@),
            r is Ok ==> r->Ok_0@ == s@,
    {
        let n = s.unicode_len();
        if n == 0 || n > 50 {
            return Err(ValidationError);
        }
        let mut i: usize = 0;
        while i < n
            invariant
                n == s@.len(),
                0 < n <= 50,
                i <= n,
                forall|j: int| 0 <= j < i ==> is_key_char(#[trigger] s@[j]),
            decreases n - i,
        {
            let c = s.get_char(i);
            let u = c as u32;
            if !((97 <= u && u <= 122) || (65 <= u && u <= 90) || (48 <= u && u <= 57) || u
                == 45) {
                return Err(ValidationError);
            }
            i = i + 1;
        }
        Ok(IdempotencyKey { key: String::from_str(s) })
    }

    /// The key's characters.
    pub fn as_str(&self) -> (r: &str)
        ensures
            r@ == self@,
    {
        self.key.as_str()
    }
}

/// The ghost image of an open publish transaction.
#[verifier::ext_equal]
pub struct TransactionView {
    pub principal_id: u128,
    pub idempotency_key: Seq<char>,
    pub issue: Option<IssueView>,
    pub tasks: Seq<TaskView>,
}

impl TransactionView {
    /// The pending writes are consistent: an issue has been staged, every
    /// staged task delivers that issue, no task is born locked, and no two
    /// staged tasks share a recipient.
    pub open spec fn tasks_wf(self) -> bool {
        &&& self.issue is Some
        &&& forall|i: int|
            0 <= i < self.tasks.len() ==> (#[trigger] self.tasks[i]).newsletter_issue_id
                == self.issue->Some_0.newsletter_issue_id && !self.tasks[i].locked
        &&& forall|i: int, j: int|
            #![trigger self.tasks[i], self.tasks[j]]
            0 <= i < self.tasks.len() && 0 <= j < self.tasks.len()
                && self.tasks[i].recipient_email == self.tasks[j].recipient_email ==> i == j
    }
}

/// An open publish transaction: the claim it holds on (principal, key) and
/// its pending writes, which become visible to other callers only when
/// `save_response` commits them.
#[derive(Debug)]
pub struct Transaction {
    pub principal_id: u128,
    pub idempotency_key: String,
    pub issue: Option<NewsletterIssue>,
    pub tasks: Vec<DeliveryTask>,
}

impl View for Transaction {
    type V = TransactionView;

    open spec fn view(&self) -> TransactionView {
        TransactionView {
            principal_id: self.principal_id,
            idempotency_key: self.idempotency_key@,
            issue: match self.issue {
                Some(ref i) => Some(i@),
                None => None,
            },
            tasks: self.tasks@.map_values(|t: DeliveryTask| t@),
        }
    }
}

/// What a publish request must do next after consulting the idempotency
/// store.
#[derive(Debug)]
pub enum NextAction {
    /// The claim is ours: run the publish transaction's writes and complete
    /// it with `save_response`.
    StartProcessing(Transaction),
    /// A previous request with this (principal, key) already completed:
    /// return its saved response without re-executing anything.
    ReturnSavedResponse(StoredResponse),
    /// Another request with this (principal, key) is mid-flight: wait for
    /// it to commit or roll back, then re-evaluate. This models the block
    /// on the unique-constraint insert.
    WaitForCompletion,
}

/// The saved response of the record of (principal_id, key), if both the
/// record and its response exist.
pub open spec fn stored_response_of(
    s: StoreView,
    principal_id: u128,
    key: Seq<char>,
) -> Option<ResponseView> {
    if has_record(s.records, principal_id, key) {
        s.records[record_idx(s.records, principal_id, key)].response
    } else {
        None
    }
}

/// The store after (principal_id, key) is claimed at time `now`: a
/// placeholder record with no response yet.
pub open spec fn claim_transition(
    s: StoreView,
    principal_id: u128,
    key: Seq<char>,
    now: i64,
) -> StoreView {
    StoreView {
        records: s.records.push(
            RecordView { principal_id, idempotency_key: key, response: None, created_at: now },
        ),
        ..s
    }
}

/// The store after the claim on (principal_id, key) is released without
/// committing: the placeholder disappears and the key is free again.
pub open spec fn release_claim_transition(
    s: StoreView,
    principal_id: u128,
    key: Seq<char>,
) -> StoreView {
    StoreView { records: s.records.remove(record_idx(s.records, principal_id, key)), ..s }
}

/// The store after the transaction holding (principal_id, key) commits:
/// the placeholder is filled with the response, and the issue and its
/// delivery tasks become durable, all at once.
pub open spec fn complete_transition(
    s: StoreView,
    principal_id: u128,
    key: Seq<char>,
    resp: ResponseView,
    issue: IssueView,
    tasks: Seq<TaskView>,
) -> StoreView {
    let i = record_idx(s.records, principal_id, key);
    StoreView {
        records: s.records.update(
            i,
            RecordView { response: Some(resp), ..s.records[i] },
        ),
        issues: s.issues.push(issue),
        queue: s.queue + tasks,
        subscriptions: s.subscriptions,
    }
}

/// Attempts to claim (user_id, idempotency_key), inserting a placeholder
/// record dated `now`. If the pair is unclaimed the caller gets an open
/// transaction; if a completed record exists its saved response is
/// returned; if an in-flight placeholder exists the caller must wait and
/// re-evaluate, exactly as it would block on the unique-constraint insert.
///
/// Relies on the store's uniqueness constraint on (principal, key) as the
/// concurrency-control primitive: at most one record per pair ever exists.
pub fn try_processing(
    store: &mut Store,
    idempotency_key: &IdempotencyKey,
    user_id: u128,
    now: i64,
) -> (r: NextAction)
    requires
        old(store)@.wf(),
    ensures
        final(store)@.wf(),
        final(store)@.issues == old(store)@.issues,
        final(store)@.queue == old(store)@.queue,
        final(store)@.subscriptions == old(store)@.subscriptions,
        !has_record(old(store)@.records, user_id, idempotency_key@) ==> {
            &&& r matches NextAction::StartProcessing(t) && t@ == (TransactionView {
                principal_id: user_id,
                idempotency_key: idempotency_key@,
                issue: None,
                tasks: Seq::empty(),
            })
            &&& final(store)@ == claim_transition(old(store)@, user_id, idempotency_key@, now)
        },
        has_record(old(store)@.records, user_id, idempotency_key@) && stored_response_of(
            old(store)@,
            user_id,
            idempotency_key@,
        ) is Some ==> {
            &&& r matches NextAction::ReturnSavedResponse(saved) && saved@ == stored_response_of(
                old(store)@,
                user_id,
                idempotency_key@,
            )->Some_0
            &&& final(store)@ == old(store)@
        },
        has_record(old(store)@.records, user_id, idempotency_key@) && stored_response_of(
            old(store)@,
            user_id,
            idempotency_key@,
        ) is None ==> {
            &&& r is WaitForCompletion
            &&& final(store)@ == old(store)@
        },
{
    let ghost pre = store@;
    let n = store.records.len();
    let mut i: usize = 0;
    while i < n
        invariant
            pre == old(store)@,
            pre.wf(),
            store@ == pre,
            n == store.records.len(),
            i <= n,
            forall|j: int| 0 <= j < i ==> !record_matches(#[trigger] pre.records[j], user_id, idempotency_key@),
        decreases n - i,
    {
        if store.records[i].principal_id == user_id && store.records[i].idempotency_key
            == idempotency_key.key {
            proof {
                assert(record_matches(pre.records[i as int], user_id, idempotency_key@));
                assert(has_record(pre.records, user_id, idempotency_key@));
                let j = record_idx(pre.records, user_id, idempotency_key@);
                assert(record_matches(pre.records[j], user_id, idempotency_key@));
                assert(j == i as int);
            }
            match &store.records[i].response {
                Some(resp) => {
                    return NextAction::ReturnSavedResponse(resp.duplicate());
                },
                None => {
                    return NextAction::WaitForCompletion;
                },
            }
        }
        i = i + 1;
    }
    proof {
        assert(!has_record(pre.records, user_id, idempotency_key@));
    }
    let placeholder = IdempotencyRecord {
        principal_id: user_id,
        idempotency_key: key_string_copy(idempotency_key),
        response: None,
        created_at: now,
    };
    store.records.push(placeholder);
    let transaction = Transaction {
        principal_id: user_id,
        idempotency_key: key_string_copy(idempotency_key),
        issue: None,
        tasks: Vec::new(),
    };
    proof {
        assert(store@.records =~= claim_transition(pre, user_id, idempotency_key@, now).records);
        assert(store@ =~= claim_transition(pre, user_id, idempotency_key@, now));
        assert(transaction@ =~= TransactionView {
            principal_id: user_id,
            idempotency_key: idempotency_key@,
            issue: None,
            tasks: Seq::empty(),
        });
        assert forall|a: int, b: int|
            0 <= a < store@.records.len() && 0 <= b < store@.records.len()
                && store@.records[a].principal_id == store@.records[b].principal_id
                && store@.records[a].idempotency_key
                == store@.records[b].idempotency_key implies a == b by {
            if a < pre.records.len() && b == pre.records.len() {
                assert(record_matches(pre.records[a], user_id, idempotency_key@));
            }
            if b < pre.records.len() && a == pre.records.len() {
                assert(record_matches(pre.records[b], user_id, idempotency_key@));
            }
        }
    }
    NextAction::StartProcessing(transaction)
}

/// A copy of the key's string.
fn key_string_copy(k: &IdempotencyKey) -> (r: String)
    ensures
        r@ == k@,
{
    k.key.clone()
}

/// Removes the placeholder record of (user_id, key): the rollback of an
/// open claim. The key is free to be claimed afresh afterwards.
fn release_claim(store: &mut Store, user_id: u128, key: &String)
    requires
        old(store)@.wf(),
        has_record(old(store)@.records, user_id, key@),
    ensures
        final(store)@.wf(),
        final(store)@ == release_claim_transition(old(store)@, user_id, key@),
{
    let ghost pre = store@;
    let n = store.records.len();
    let mut i: usize = 0;
    while i < n
        invariant
            pre == old(store)@,
            pre.wf(),
            store@ == pre,
            has_record(pre.records, user_id, key@),
            n == store.records.len(),
            i <= n,
            forall|j: int|
                0 <= j < i ==> !record_matches(#[trigger] pre.records[j], user_id, key@),
        decreases n - i,
    {
        if store.records[i].principal_id == user_id && store.records[i].idempotency_key == *key {
            proof {
                assert(record_matches(pre.records[i as int], user_id, key@));
                let j = record_idx(pre.records, user_id, key@);
                assert(record_matches(pre.records[j], user_id, key@));
                assert(j == i as int);
            }
            store.records.remove(i);
            proof {
                let post = release_claim_transition(pre, user_id, key@);
                assert(store@.records =~= post.records);
                assert(store@ =~= post);
                assert forall|a: int, b: int|
                    0 <= a < store@.records.len() && 0 <= b < store@.records.len()
                        && store@.records[a].principal_id == store@.records[b].principal_id
                        && store@.records[a].idempotency_key
                        == store@.records[b].idempotency_key implies a == b by {
                    let a0: int = if a < i { a } else { a + 1 };
                    let b0: int = if b < i { b } else { b + 1 };
                    assert(store@.records[a] == pre.records[a0]);
                    assert(store@.records[b] == pre.records[b0]);
                }
            }
            return ;
        }
        i = i + 1;
    }
    proof {
        assert(!has_record(pre.records, user_id, key@));
        assert(false);
    }
}

/// Writes the final response into the claimed record of (user_id, key) and
/// commits: the response, the staged newsletter issue and its delivery
/// tasks all become durable at once, or none of them do. The commit fails
/// exactly when the staged issue's id is already taken, and then the claim
/// is released so a future retry is treated as a fresh first attempt.
pub fn save_response(
    store: &mut Store,
    transaction: Transaction,
    idempotency_key: &IdempotencyKey,
    user_id: u128,
    http_response: StoredResponse,
) -> (r: Result<StoredResponse, PersistenceError>)
    requires
        old(store)@.wf(),
        transaction@.principal_id == user_id,
        transaction@.idempotency_key == idempotency_key@,
        transaction@.tasks_wf(),
        has_record(old(store)@.records, user_id, idempotency_key@),
        stored_response_of(old(store)@, user_id, idempotency_key@) is None,
    ensures
        final(store)@.wf(),
        has_issue(
            old(store)@.issues,
            transaction@.issue->Some_0.newsletter_issue_id,
        ) ==> r is Err && final(store)@ == release_claim_transition(
            old(store)@,
            user_id,
            idempotency_key@,
        ),
        !has_issue(old(store)@.issues, transaction@.issue->Some_0.newsletter_issue_id) ==> {
            &&& r matches Ok(resp) && resp@ == http_response@
            &&& final(store)@ == complete_transition(
                old(store)@,
                user_id,
                idempotency_key@,
                http_response@,
                transaction@.issue->Some_0,
                transaction@.tasks,
            )
        },
{
    let ghost pre = store@;
    let ghost txn_v = transaction@;
    let Transaction { principal_id: _, idempotency_key: txn_key, issue, mut tasks } = transaction;
    let issue = match issue {
        Some(x) => x,
        None => {
            proof {
                assert(false);
            }
            NewsletterIssue {
                newsletter_issue_id: 0,
                title: String::new(),
                text_content: String::new(),
                html_content: String::new(),
                published_at: 0,
            }
        },
    };
    // A row for the staged issue's id must not exist yet; hitting one is
    // the constraint violation that aborts the transaction.
    let n_issues = store.issues.len();
    let mut i: usize = 0;
    while i < n_issues
        invariant
            pre == old(store)@,
            pre.wf(),
            store@ == pre,
            n_issues == store.issues.len(),
            i <= n_issues,
            forall|j: int|
                0 <= j < i ==> (#[trigger] pre.issues[j]).newsletter_issue_id
                    != issue@.newsletter_issue_id,
            has_record(pre.records, user_id, idempotency_key@),
            txn_key@ == idempotency_key@,
            txn_v == transaction@,
            issue@ == txn_v.issue->Some_0,
        decreases n_issues - i,
    {
        if store.issues[i].newsletter_issue_id == issue.newsletter_issue_id {
            proof {
                assert(pre.issues[i as int].newsletter_issue_id == issue@.newsletter_issue_id);
                assert(has_issue(pre.issues, issue@.newsletter_issue_id));
            }
            release_claim(store, user_id, &txn_key);
            return Err(PersistenceError);
        }
        i = i + 1;
    }
    proof {
        assert(!has_issue(pre.issues, issue@.newsletter_issue_id));
    }
    // Fill the placeholder record with the response.
    let n = store.records.len();
    let mut i: usize = 0;
    while i < n
        invariant
            pre == old(store)@,
            pre.wf(),
            store@ == pre,
            has_record(pre.records, user_id, idempotency_key@),
            n == store.records.len(),
            i <= n,
            forall|j: int|
                0 <= j < i ==> !record_matches(#[trigger] pre.records[j], user_id, idempotency_key@),
            txn_key@ == idempotency_key@,
            txn_v == transaction@,
            issue@ == txn_v.issue->Some_0,
            tasks@.map_values(|t: DeliveryTask| t@) == txn_v.tasks,
            txn_v.tasks_wf(),
            !has_issue(pre.issues, issue@.newsletter_issue_id),
        decreases n - i,
    {
        if store.records[i].principal_id == user_id && store.records[i].idempotency_key
            == idempotency_key.key {
            proof {
                assert(record_matches(pre.records[i as int], user_id, idempotency_key@));
                let j = record_idx(pre.records, user_id, idempotency_key@);
                assert(record_matches(pre.records[j], user_id, idempotency_key@));
                assert(j == i as int);
            }
            let created = store.records[i].created_at;
            let stored = http_response.duplicate();
            store.records.set(
                i,
                IdempotencyRecord {
                    principal_id: user_id,
                    idempotency_key: txn_key,
                    response: Some(stored),
                    created_at: created,
                },
            );
            let ghost issue_v = issue@;
            let ghost tasks_v = tasks@.map_values(|t: DeliveryTask| t@);
            store.issues.push(issue);
            store.queue.append(&mut tasks);
            proof {
                let post = complete_transition(
                    pre,
                    user_id,
                    idempotency_key@,
                    http_response@,
                    issue_v,
                    tasks_v,
                );
                assert(store@.records =~= post.records);
                assert(store@.issues =~= post.issues);
                assert(store@.queue =~= post.queue);
                assert(store@ =~= post);
                lemma_complete_preserves_wf(pre, user_id, idempotency_key@, http_response@, issue_v, tasks_v);
            }
            return Ok(http_response);
        }
        i = i + 1;
    }
    proof {
        assert(!has_record(pre.records, user_id, idempotency_key@));
        assert(false);
    }
    Err(PersistenceError)
}

/// Committing a well-formed transaction whose staged issue id is fresh
/// preserves the store's well-formedness.
pub(crate) proof fn lemma_complete_preserves_wf(
    s: StoreView,
    principal_id: u128,
    key: Seq<char>,
    resp: ResponseView,
    issue: IssueView,
    tasks: Seq<TaskView>,
)
    requires
        s.wf(),
        has_record(s.records, principal_id, key),
        !has_issue(s.issues, issue.newsletter_issue_id),
        forall|i: int|
            0 <= i < tasks.len() ==> (#[trigger] tasks[i]).newsletter_issue_id
                == issue.newsletter_issue_id,
        forall|i: int, j: int|
            #![trigger tasks[i], tasks[j]]
            0 <= i < tasks.len() && 0 <= j < tasks.len() && tasks[i].recipient_email
                == tasks[j].recipient_email ==> i == j,
    ensures
        complete_transition(s, principal_id, key, resp, issue, tasks).wf(),
{
    let post = complete_transition(s, principal_id, key, resp, issue, tasks);
    let ri = record_idx(s.records, principal_id, key);
    assert(record_matches(s.records[ri], principal_id, key));
    assert forall|a: int, b: int|
        0 <= a < post.records.len() && 0 <= b < post.records.len()
            && post.records[a].principal_id == post.records[b].principal_id
            && post.records[a].idempotency_key == post.records[b].idempotency_key implies a
        == b by {
        assert(post.records[a].principal_id == s.records[a].principal_id);
        assert(post.records[a].idempotency_key == s.records[a].idempotency_key);
        assert(post.records[b].principal_id == s.records[b].principal_id);
        assert(post.records[b].idempotency_key == s.records[b].idempotency_key);
    }
    assert forall|a: int, b: int|
        0 <= a < post.issues.len() && 0 <= b < post.issues.len()
            && post.issues[a].newsletter_issue_id == post.issues[b].newsletter_issue_id implies a
        == b by {
        if a < s.issues.len() && b == s.issues.len() {
            assert(has_issue(s.issues, s.issues[a].newsletter_issue_id));
        }
        if b < s.issues.len() && a == s.issues.len() {
            assert(has_issue(s.issues, s.issues[b].newsletter_issue_id));
        }
    }
    assert forall|a: int, b: int|
        0 <= a < post.queue.len() && 0 <= b < post.queue.len()
            && post.queue[a].newsletter_issue_id == post.queue[b].newsletter_issue_id
            && post.queue[a].recipient_email == post.queue[b].recipient_email implies a == b by {
        let ql = s.queue.len() as int;
        if a < ql && b >= ql {
            assert(has_issue(s.issues, s.queue[a].newsletter_issue_id));
            assert(post.queue[b].newsletter_issue_id == issue.newsletter_issue_id);
        }
        if b < ql && a >= ql {
            assert(has_issue(s.issues, s.queue[b].newsletter_issue_id));
            assert(post.queue[a].newsletter_issue_id == issue.newsletter_issue_id);
        }
    }
    assert forall|i: int| 0 <= i < post.queue.len() implies has_issue(
        post.issues,
        (#[trigger] post.queue[i]).newsletter_issue_id,
    ) by {
        let ql = s.queue.len() as int;
        if i < ql {
            let w = issue_idx(s.issues, s.queue[i].newsletter_issue_id);
            assert(has_issue(s.issues, s.queue[i].newsletter_issue_id));
            assert(0 <= w < s.issues.len() && s.issues[w].newsletter_issue_id
                == s.queue[i].newsletter_issue_id);
            assert(post.issues[w].newsletter_issue_id == post.queue[i].newsletter_issue_id);
        } else {
            assert(post.issues[s.issues.len() as int].newsletter_issue_id
                == post.queue[i].newsletter_issue_id);
        }
    }
}

/// Claiming a pair that holds no record yet preserves the store's
/// well-formedness: the new placeholder is the only record of its pair.
pub(crate) proof fn lemma_claim_preserves_wf(
    s: StoreView,
    principal_id: u128,
    key: Seq<char>,
    now: i64,
)
    requires
        s.wf(),
        !has_record(s.records, principal_id, key),
    ensures
        claim_transition(s, principal_id, key, now).wf(),
{
    let c = claim_transition(s, principal_id, key, now);
    assert forall|a: int, b: int|
        0 <= a < c.records.len() && 0 <= b < c.records.len() && c.records[a].principal_id
            == c.records[b].principal_id && c.records[a].idempotency_key
            == c.records[b].idempotency_key implies a == b by {
        if a < s.records.len() && b == s.records.len() {
            assert(record_matches(s.records[a], principal_id, key));
        }
        if b < s.records.len() && a == s.records.len() {
            assert(record_matches(s.records[b], principal_id, key));
        }
    }
}

/// Atomicity of a failed publish attempt: a claim that is rolled back
/// leaves the store exactly as it was, so no issue row, no task row and no
/// idempotency record survive, and the key is free to be reused as a fresh
/// attempt.
pub proof fn lemma_claim_then_release(s: StoreView, principal_id: u128, key: Seq<char>, now: i64)
    requires
        s.wf(),
        !has_record(s.records, principal_id, key),
    ensures
        release_claim_transition(claim_transition(s, principal_id, key, now), principal_id, key)
            == s,
{
    let c = claim_transition(s, principal_id, key, now);
    let last = s.records.len() as int;
    assert(record_matches(c.records[last], principal_id, key));
    assert(has_record(c.records, principal_id, key));
    let i = record_idx(c.records, principal_id, key);
    assert(record_matches(c.records[i], principal_id, key));
    if i < last {
        assert(record_matches(s.records[i], principal_id, key));
        assert(false);
    }
    assert(c.records.remove(i) =~= s.records);
    assert(release_claim_transition(c, principal_id, key) =~= s);
}

/// Abandons an open transaction: its pending writes are dropped and the
/// claim on (principal, key) is released, so the key is free to be reused
/// as a fresh attempt. This is what happens when any step of the publish
/// transaction fails before completion.
pub fn rollback(store: &mut Store, transaction: Transaction)
    requires
        old(store)@.wf(),
        has_record(old(store)@.records, transaction@.principal_id, transaction@.idempotency_key),
    ensures
        final(store)@.wf(),
        final(store)@ == release_claim_transition(
            old(store)@,
            transaction@.principal_id,
            transaction@.idempotency_key,
        ),
{
    let user_id = transaction.principal_id;
    release_claim(store, user_id, &transaction.idempotency_key);
}

} // verus!
