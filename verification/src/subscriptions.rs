//! Inserting subscribers into the directory the publish transaction reads.

use vstd::prelude::*;

use crate::store::{
    generate_id, has_subscriber, PersistenceError, Store, StoreView, Subscription,
    SubscriptionStatus, SubscriptionView,
};

verus! {

/// The store after a subscriber row is inserted.
pub open spec fn subscribe_transition(
    s: StoreView,
    id: u128,
    email: Seq<char>,
    name: Seq<char>,
    status: SubscriptionStatus,
) -> StoreView {
    StoreView {
        subscriptions: s.subscriptions.push(SubscriptionView { id, email, name, status }),
        ..s
    }
}

/// Inserts a subscriber row under the given generated id. Fails exactly
/// when the email is already present — the directory's uniqueness
/// constraint — and then changes nothing.
pub fn insert_subscriber(
    store: &mut Store,
    id: u128,
    email: String,
    name: String,
    status: SubscriptionStatus,
) -> (r: Result<(), PersistenceError>)
    requires
        old(store)@.wf(),
    ensures
        final(store)@.wf(),
        has_subscriber(old(store)@.subscriptions, email@) ==> r is Err && final(store)@ == old(
            store,
        )@,
        !has_subscriber(old(store)@.subscriptions, email@) ==> r is Ok && final(store)@
            == subscribe_transition(old(store)@, id, email@, name@, status),
{
    let ghost pre = store@;
    let n = store.subscriptions.len();
    let mut i: usize = 0;
    while i < n
        invariant
            pre == old(store)@,
            pre.wf(),
            store@ == pre,
            n == store.subscriptions.len(),
            i <= n,
            forall|j: int| 0 <= j < i ==> (#[trigger] pre.subscriptions[j]).email != email@,
        decreases n - i,
    {
        if store.subscriptions[i].email == email {
            proof {
                assert(pre.subscriptions[i as int].email == email@);
                assert(has_subscriber(pre.subscriptions, email@));
            }
            return Err(PersistenceError);
        }
        i = i + 1;
    }
    proof {
        assert(!has_subscriber(pre.subscriptions, email@));
    }
    store.subscriptions.push(Subscription { id, email, name, status });
    proof {
        let ghost post = subscribe_transition(pre, id, store@.subscriptions.last().email, store@.subscriptions.last().name, status);
        assert(store@.subscriptions =~= subscribe_transition(
            pre,
            id,
            store@.subscriptions.last().email,
            store@.subscriptions.last().name,
            status,
        ).subscriptions);
        assert forall|a: int, b: int|
            0 <= a < store@.subscriptions.len() && 0 <= b < store@.subscriptions.len()
                && store@.subscriptions[a].email == store@.subscriptions[b].email implies a
            == b by {
            if a < pre.subscriptions.len() && b == pre.subscriptions.len() {
                assert(has_subscriber(pre.subscriptions, pre.subscriptions[a].email));
            }
            if b < pre.subscriptions.len() && a == pre.subscriptions.len() {
                assert(has_subscriber(pre.subscriptions, pre.subscriptions[b].email));
            }
        }
    }
    Ok(())
}

/// Handles a subscribe request: draws a fresh id and inserts the row.
/// Whatever id comes back, the directory gains exactly this subscriber, or
/// the insert fails on a duplicate email and changes nothing.
pub fn subscribe(
    store: &mut Store,
    email: String,
    name: String,
    status: SubscriptionStatus,
) -> (r: Result<(), PersistenceError>)
    requires
        old(store)@.wf(),
    ensures
        final(store)@.wf(),
        has_subscriber(old(store)@.subscriptions, email@) ==> r is Err && final(store)@ == old(
            store,
        )@,
        !has_subscriber(old(store)@.subscriptions, email@) ==> r is Ok && exists|id: u128|
            final(store)@ == #[trigger] subscribe_transition(
                old(store)@,
                id,
                email@,
                name@,
                status,
            ),
{
    let id = generate_id();
    let ghost email_v = email@;
    let ghost name_v = name@;
    let r = insert_subscriber(store, id, email, name, status);
    proof {
        if !has_subscriber(old(store)@.subscriptions, email_v) {
            assert(final(store)@ == subscribe_transition(
                old(store)@,
                id,
                email_v,
                name_v,
                status,
            ));
        }
    }
    r
}

} // verus!
