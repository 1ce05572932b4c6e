//! The delivery worker's claim and resolution protocol: claim one pending
//! task at a time, skipping tasks locked by other workers; hand the send
//! to the email collaborator; and resolve the task — delete it on a
//! terminal outcome, leave it for retry on a transient failure. The loop
//! itself, the sleeps and the actual sending live outside the library;
//! here are the decisions and the state they act on, verified for every
//! outcome the collaborator can report.

use vstd::prelude::*;

use crate::domain::{email_is_valid, SubscriberEmail};
use crate::store::{
    has_issue, has_task, issue_idx, task_idx, task_matches, Store, StoreView, TaskView,
};

verus! {

/// Why the email collaborator failed a send: a transient failure may
/// succeed later and is retried; a permanent one is futile to retry and
/// the task is discarded.
#[derive(Clone, Copy, Debug, PartialEq, Eq, Structural)]
pub enum SendError {
    Transient,
    Permanent,
}

/// A claim on one queued delivery task, held by a single worker from
/// dequeue to resolution.
#[derive(Debug)]
pub struct ClaimedTask {
    pub newsletter_issue_id: u128,
    pub recipient_email: String,
}

impl View for ClaimedTask {
    type V = (u128, Seq<char>);

    open spec fn view(&self) -> (u128, Seq<char>) {
        (self.newsletter_issue_id, self.recipient_email@)
    }
}

/// Whether a claim is live: its task is in the queue and carries the lock.
pub open spec fn claim_valid(s: StoreView, issue_id: u128, email: Seq<char>) -> bool {
    has_task(s.queue, issue_id, email) && s.queue[task_idx(s.queue, issue_id, email)].locked
}

/// The first task from position `i` on that no worker holds, or -1.
pub open spec fn first_unlocked_from(q: Seq<TaskView>, i: int) -> int
    decreases q.len() - i,
{
    if i < 0 || i >= q.len() {
        -1
    } else if !q[i].locked {
        i
    } else {
        first_unlocked_from(q, i + 1)
    }
}

/// The first task of the queue that no worker holds, or -1: the stable
/// insertion order makes the dequeue fair.
pub open spec fn first_unlocked(q: Seq<TaskView>) -> int {
    first_unlocked_from(q, 0)
}

/// What `first_unlocked_from` finds: either nothing, and every task from
/// `i` on is locked; or the first unlocked position at or after `i`.
pub proof fn lemma_first_unlocked_from(q: Seq<TaskView>, i: int)
    requires
        0 <= i <= q.len(),
    ensures
        first_unlocked_from(q, i) >= -1,
        first_unlocked_from(q, i) == -1 ==> forall|j: int|
            i <= j < q.len() ==> (#[trigger] q[j]).locked,
        first_unlocked_from(q, i) >= 0 ==> {
            let r = first_unlocked_from(q, i);
            &&& i <= r < q.len()
            &&& !q[r].locked
            &&& forall|j: int| i <= j < r ==> (#[trigger] q[j]).locked
        },
    decreases q.len() - i,
{
    if i < q.len() {
        lemma_first_unlocked_from(q, i + 1);
    }
}

/// The store after the task at queue position `i` is claimed: its row
/// lock is taken.
pub open spec fn lock_task_transition(s: StoreView, i: int) -> StoreView {
    StoreView { queue: s.queue.update(i, TaskView { locked: true, ..s.queue[i] }), ..s }
}

/// The store after the claimed task of (issue_id, email) is released for
/// a later retry: the row stays, the lock is dropped.
pub open spec fn unlock_task_transition(s: StoreView, issue_id: u128, email: Seq<char>) -> StoreView {
    StoreView {
        queue: s.queue.update(
            task_idx(s.queue, issue_id, email),
            TaskView { locked: false, ..s.queue[task_idx(s.queue, issue_id, email)] },
        ),
        ..s
    }
}

/// The store after the claimed task of (issue_id, email) is resolved
/// terminally: the row is deleted.
pub open spec fn delete_task_transition(s: StoreView, issue_id: u128, email: Seq<char>) -> StoreView {
    StoreView { queue: s.queue.remove(task_idx(s.queue, issue_id, email)), ..s }
}

/// Claims the first pending task no other worker holds, skipping locked
/// rows, and takes its lock; returns nothing when every task is locked or
/// the queue is empty, and the worker should sleep before polling again.
/// At most one worker ever holds a given task.
pub fn dequeue_task(store: &mut Store) -> (r: Option<ClaimedTask>)
    requires
        old(store)@.wf(),
    ensures
        final(store)@.wf(),
        first_unlocked(old(store)@.queue) == -1 ==> r is None && final(store)@ == old(store)@,
        first_unlocked(old(store)@.queue) >= 0 ==> {
            let i = first_unlocked(old(store)@.queue);
            &&& r matches Some(c) && c@ == (
                old(store)@.queue[i].newsletter_issue_id,
                old(store)@.queue[i].recipient_email,
            )
            &&& !old(store)@.queue[i].locked
            &&& final(store)@ == lock_task_transition(old(store)@, i)
            &&& claim_valid(
                final(store)@,
                old(store)@.queue[i].newsletter_issue_id,
                old(store)@.queue[i].recipient_email,
            )
        },
{
    let ghost pre = store@;
    let n = store.queue.len();
    let mut i: usize = 0;
    while i < n
        invariant
            pre == old(store)@,
            pre.wf(),
            store@ == pre,
            n == store.queue.len(),
            i <= n,
            first_unlocked(pre.queue) == first_unlocked_from(pre.queue, i as int),
        decreases n - i,
    {
        if !store.queue[i].locked {
            let issue_id = store.queue[i].newsletter_issue_id;
            let email = store.queue[i].recipient_email.clone();
            store.queue.set(
                i,
                crate::store::DeliveryTask {
                    newsletter_issue_id: issue_id,
                    recipient_email: email.clone(),
                    locked: true,
                },
            );
            proof {
                assert(first_unlocked(pre.queue) == i as int);
                assert(store@.queue =~= lock_task_transition(pre, i as int).queue);
                assert(store@ =~= lock_task_transition(pre, i as int));
                assert forall|a: int, b: int|
                    0 <= a < store@.queue.len() && 0 <= b < store@.queue.len()
                        && store@.queue[a].newsletter_issue_id
                        == store@.queue[b].newsletter_issue_id && store@.queue[a].recipient_email
                        == store@.queue[b].recipient_email implies a == b by {
                    assert(store@.queue[a].newsletter_issue_id
                        == pre.queue[a].newsletter_issue_id);
                    assert(store@.queue[a].recipient_email == pre.queue[a].recipient_email);
                    assert(store@.queue[b].newsletter_issue_id
                        == pre.queue[b].newsletter_issue_id);
                    assert(store@.queue[b].recipient_email == pre.queue[b].recipient_email);
                }
                assert forall|k: int| 0 <= k < store@.queue.len() implies has_issue(
                    store@.issues,
                    (#[trigger] store@.queue[k]).newsletter_issue_id,
                ) by {
                    assert(store@.queue[k].newsletter_issue_id
                        == pre.queue[k].newsletter_issue_id);
                }
                assert(task_matches(store@.queue[i as int], issue_id, email@));
                assert(has_task(store@.queue, issue_id, email@));
                let w = task_idx(store@.queue, issue_id, email@);
                assert(task_matches(store@.queue[w], issue_id, email@));
                assert(w == i as int);
            }
            return Some(
                ClaimedTask { newsletter_issue_id: issue_id, recipient_email: email },
            );
        }
        i = i + 1;
    }
    proof {
        assert(first_unlocked(pre.queue) == -1);
    }
    None
}

/// Finds the queue position of the claimed task.
fn find_claimed(store: &Store, task: &ClaimedTask) -> (r: usize)
    requires
        store@.wf(),
        claim_valid(store@, task@.0, task@.1),
    ensures
        r == task_idx(store@.queue, task@.0, task@.1),
        0 <= r < store@.queue.len(),
{
    let ghost pre = store@;
    let n = store.queue.len();
    let mut i: usize = 0;
    while i < n
        invariant
            pre == store@,
            pre.wf(),
            claim_valid(pre, task@.0, task@.1),
            n == store.queue.len(),
            i <= n,
            forall|j: int|
                0 <= j < i ==> !task_matches(#[trigger] pre.queue[j], task@.0, task@.1),
        decreases n - i,
    {
        if store.queue[i].newsletter_issue_id == task.newsletter_issue_id
            && store.queue[i].recipient_email == task.recipient_email {
            proof {
                assert(task_matches(pre.queue[i as int], task@.0, task@.1));
                let w = task_idx(pre.queue, task@.0, task@.1);
                assert(task_matches(pre.queue[w], task@.0, task@.1));
                assert(w == i as int);
            }
            return i;
        }
        i = i + 1;
    }
    proof {
        let w = task_idx(pre.queue, task@.0, task@.1);
        assert(task_matches(pre.queue[w], task@.0, task@.1));
        assert(false);
    }
    0
}

/// Deletes the claimed task: the terminal resolution, after a successful
/// send, a permanent provider failure, or a malformed recipient.
pub fn delete_task(store: &mut Store, task: ClaimedTask)
    requires
        old(store)@.wf(),
        claim_valid(old(store)@, task@.0, task@.1),
    ensures
        final(store)@.wf(),
        final(store)@ == delete_task_transition(old(store)@, task@.0, task@.1),
{
    let ghost pre = store@;
    let i = find_claimed(store, &task);
    store.queue.remove(i);
    proof {
        assert(store@.queue =~= delete_task_transition(pre, task@.0, task@.1).queue);
        assert(store@ =~= delete_task_transition(pre, task@.0, task@.1));
        assert forall|a: int, b: int|
            0 <= a < store@.queue.len() && 0 <= b < store@.queue.len()
                && store@.queue[a].newsletter_issue_id == store@.queue[b].newsletter_issue_id
                && store@.queue[a].recipient_email
                == store@.queue[b].recipient_email implies a == b by {
            let a0: int = if a < i { a } else { a + 1 };
            let b0: int = if b < i { b } else { b + 1 };
            assert(store@.queue[a] == pre.queue[a0]);
            assert(store@.queue[b] == pre.queue[b0]);
        }
        assert forall|k: int| 0 <= k < store@.queue.len() implies has_issue(
            store@.issues,
            (#[trigger] store@.queue[k]).newsletter_issue_id,
        ) by {
            let k0: int = if k < i { k } else { k + 1 };
            assert(store@.queue[k] == pre.queue[k0]);
        }
    }
}

/// Releases the claimed task for a later retry, after a transient
/// failure: the row stays pending, only the lock is dropped, so a later
/// worker pass picks it up again.
pub fn release_task(store: &mut Store, task: ClaimedTask)
    requires
        old(store)@.wf(),
        claim_valid(old(store)@, task@.0, task@.1),
    ensures
        final(store)@.wf(),
        final(store)@ == unlock_task_transition(old(store)@, task@.0, task@.1),
{
    let ghost pre = store@;
    let i = find_claimed(store, &task);
    let issue_id = store.queue[i].newsletter_issue_id;
    let email = store.queue[i].recipient_email.clone();
    store.queue.set(
        i,
        crate::store::DeliveryTask {
            newsletter_issue_id: issue_id,
            recipient_email: email,
            locked: false,
        },
    );
    proof {
        assert(store@.queue =~= unlock_task_transition(pre, task@.0, task@.1).queue);
        assert(store@ =~= unlock_task_transition(pre, task@.0, task@.1));
        assert forall|a: int, b: int|
            0 <= a < store@.queue.len() && 0 <= b < store@.queue.len()
                && store@.queue[a].newsletter_issue_id == store@.queue[b].newsletter_issue_id
                && store@.queue[a].recipient_email
                == store@.queue[b].recipient_email implies a == b by {
            assert(store@.queue[a].newsletter_issue_id == pre.queue[a].newsletter_issue_id);
            assert(store@.queue[a].recipient_email == pre.queue[a].recipient_email);
            assert(store@.queue[b].newsletter_issue_id == pre.queue[b].newsletter_issue_id);
            assert(store@.queue[b].recipient_email == pre.queue[b].recipient_email);
        }
        assert forall|k: int| 0 <= k < store@.queue.len() implies has_issue(
            store@.issues,
            (#[trigger] store@.queue[k]).newsletter_issue_id,
        ) by {
            assert(store@.queue[k].newsletter_issue_id == pre.queue[k].newsletter_issue_id);
        }
    }
}

/// Resolves the claimed task after its send came back: a success or a
/// permanent failure deletes the row; a transient failure keeps the row
/// pending and only releases the lock. Each outcome is local to this one
/// task and never touches any other row.
pub fn resolve_after_send(store: &mut Store, task: ClaimedTask, outcome: Result<(), SendError>)
    requires
        old(store)@.wf(),
        claim_valid(old(store)@, task@.0, task@.1),
    ensures
        final(store)@.wf(),
        outcome is Ok || outcome == Err::<(), SendError>(SendError::Permanent)
            ==> final(store)@ == delete_task_transition(old(store)@, task@.0, task@.1),
        outcome == Err::<(), SendError>(SendError::Transient) ==> final(store)@
            == unlock_task_transition(old(store)@, task@.0, task@.1),
{
    match outcome {
        Ok(()) => delete_task(store, task),
        Err(SendError::Permanent) => delete_task(store, task),
        Err(SendError::Transient) => release_task(store, task),
    }
}

/// No duplicate send under crash-free operation: a worker only ever
/// claims a task no other worker holds. Once one worker claims the first
/// unlocked task, that task is locked and no later dequeue can yield it;
/// when it was the only task of the queue, a concurrently polling worker
/// claims nothing at all, so the task's email is sent exactly once before
/// the task is removed.
pub proof fn lemma_no_double_claim(s: StoreView)
    requires
        s.wf(),
        first_unlocked(s.queue) >= 0,
    ensures
        ({
            let i = first_unlocked(s.queue);
            let s1 = lock_task_transition(s, i);
            &&& forall|j: int|
                0 <= j < s1.queue.len() && !(#[trigger] s1.queue[j]).locked ==> j != i
            &&& s.queue.len() == 1 ==> first_unlocked(s1.queue) == -1
        }),
{
    lemma_first_unlocked_from(s.queue, 0);
    let i = first_unlocked(s.queue);
    let s1 = lock_task_transition(s, i);
    assert(s1.queue[i].locked);
    if s.queue.len() == 1 {
        assert(i == 0);
        lemma_first_unlocked_from(s1.queue, 0);
        let r = first_unlocked_from(s1.queue, 0);
        if r >= 0 {
            assert(!s1.queue[r].locked);
            assert(false);
        }
    }
}

/// At-least-once delivery under transient failure. With one pending task
/// in the queue, a worker claims it; when the send fails transiently the
/// task is released, not deleted, so a second pass claims the very same
/// task again; when that send succeeds the task is deleted and the queue
/// is empty. The sender is invoked once per claim: exactly twice.
pub proof fn lemma_transient_failure_retried(s: StoreView, t: TaskView)
    requires
        s.wf(),
        s.queue == seq![t],
        !t.locked,
    ensures
        ({
            let s1 = lock_task_transition(s, first_unlocked(s.queue));
            let s2 = unlock_task_transition(s1, t.newsletter_issue_id, t.recipient_email);
            let s3 = lock_task_transition(s2, first_unlocked(s2.queue));
            let s4 = delete_task_transition(s3, t.newsletter_issue_id, t.recipient_email);
            &&& first_unlocked(s.queue) == 0 && s.queue[0] == t
            &&& first_unlocked(s2.queue) == 0 && s2.queue[0] == t
            &&& s4.queue.len() == 0
        }),
{
    assert(s.queue[0] == t);
    assert(first_unlocked(s.queue) == 0);
    let s1 = lock_task_transition(s, 0);
    assert(task_matches(s1.queue[0], t.newsletter_issue_id, t.recipient_email));
    assert(has_task(s1.queue, t.newsletter_issue_id, t.recipient_email));
    let w1 = task_idx(s1.queue, t.newsletter_issue_id, t.recipient_email);
    assert(task_matches(s1.queue[w1], t.newsletter_issue_id, t.recipient_email));
    assert(w1 == 0);
    let s2 = unlock_task_transition(s1, t.newsletter_issue_id, t.recipient_email);
    assert(s2.queue[0] =~= t);
    assert(first_unlocked(s2.queue) == 0);
    let s3 = lock_task_transition(s2, 0);
    assert(task_matches(s3.queue[0], t.newsletter_issue_id, t.recipient_email));
    assert(has_task(s3.queue, t.newsletter_issue_id, t.recipient_email));
    let w3 = task_idx(s3.queue, t.newsletter_issue_id, t.recipient_email);
    assert(task_matches(s3.queue[w3], t.newsletter_issue_id, t.recipient_email));
    assert(w3 == 0);
    let s4 = delete_task_transition(s3, t.newsletter_issue_id, t.recipient_email);
    assert(s4.queue.len() == 0);
}

/// Permanent-failure discard: deleting a claimed task removes its
/// (issue, recipient) pair from the queue for good, so it is never
/// retried. Together with `prepare_delivery`, a task whose stored
/// recipient no longer parses is resolved this way after its single
/// attempt, without the sender being invoked at all.
pub proof fn lemma_discarded_task_never_retried(s: StoreView, issue_id: u128, email: Seq<char>)
    requires
        s.wf(),
        has_task(s.queue, issue_id, email),
    ensures
        delete_task_transition(s, issue_id, email).queue.len() == s.queue.len() - 1,
        !has_task(delete_task_transition(s, issue_id, email).queue, issue_id, email),
{
    let i = task_idx(s.queue, issue_id, email);
    assert(task_matches(s.queue[i], issue_id, email));
    let q = delete_task_transition(s, issue_id, email).queue;
    assert(q.len() == s.queue.len() - 1);
    assert forall|j: int| 0 <= j < q.len() implies !task_matches(
        #[trigger] q[j],
        issue_id,
        email,
    ) by {
        let j0: int = if j < i {
            j
        } else {
            j + 1
        };
        assert(q[j] == s.queue[j0]);
        if task_matches(s.queue[j0], issue_id, email) {
            assert(j0 == i);
            assert(false);
        }
    }
}

/// The email the worker must hand to the sending collaborator for a task:
/// the validated recipient and the issue's title and contents.
#[derive(Debug)]
pub struct EmailMessage {
    pub recipient: SubscriberEmail,
    pub subject: String,
    pub html_content: String,
    pub text_content: String,
}

/// What to do with a claimed task: send an email, or discard the task as
/// a permanent failure because its stored recipient no longer parses as a
/// valid address.
#[derive(Debug)]
pub enum DeliveryPlan {
    Deliver(EmailMessage),
    Discard,
}

/// Decides a claimed task: looks the issue up and re-validates the stored
/// recipient. A valid recipient yields the email to send, with the
/// issue's title as subject and its two bodies; a malformed recipient is
/// a permanent failure, to be discarded rather than retried forever.
pub fn prepare_delivery(store: &Store, task: &ClaimedTask) -> (r: DeliveryPlan)
    requires
        store@.wf(),
        claim_valid(store@, task@.0, task@.1),
    ensures
        ({
            let issue = store@.issues[issue_idx(store@.issues, task@.0)];
            &&& email_is_valid(task@.1) ==> (r matches DeliveryPlan::Deliver(m) && m.recipient@
                == task@.1 && m.subject@ == issue.title && m.html_content@ == issue.html_content
                && m.text_content@ == issue.text_content)
            &&& !email_is_valid(task@.1) ==> r is Discard
        }),
{
    let ghost pre = store@;
    proof {
        let w = task_idx(pre.queue, task@.0, task@.1);
        assert(task_matches(pre.queue[w], task@.0, task@.1));
        assert(has_issue(pre.issues, pre.queue[w].newsletter_issue_id));
    }
    let n = store.issues.len();
    let mut i: usize = 0;
    while i < n
        invariant
            pre == store@,
            pre.wf(),
            has_issue(pre.issues, task@.0),
            n == store.issues.len(),
            i <= n,
            forall|j: int|
                0 <= j < i ==> (#[trigger] pre.issues[j]).newsletter_issue_id != task@.0,
        decreases n - i,
    {
        if store.issues[i].newsletter_issue_id == task.newsletter_issue_id {
            proof {
                assert(pre.issues[i as int].newsletter_issue_id == task@.0);
                let w = issue_idx(pre.issues, task@.0);
                assert(pre.issues[w].newsletter_issue_id == task@.0);
                assert(w == i as int);
            }
            let recipient = match SubscriberEmail::parse(task.recipient_email.clone()) {
                Ok(email) => email,
                Err(_) => {
                    return DeliveryPlan::Discard;
                },
            };
            return DeliveryPlan::Deliver(
                EmailMessage {
                    recipient,
                    subject: store.issues[i].title.clone(),
                    html_content: store.issues[i].html_content.clone(),
                    text_content: store.issues[i].text_content.clone(),
                },
            );
        }
        i = i + 1;
    }
    proof {
        let w = issue_idx(pre.issues, task@.0);
        assert(pre.issues[w].newsletter_issue_id == task@.0);
        assert(false);
    }
    DeliveryPlan::Discard
}

} // verus!
