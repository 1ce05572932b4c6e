//! The core of a newsletter service: idempotent publish processing and a
//! transactional outbox with a delivery worker.
//!
//! Publishing an issue must never be double-executed, even when the
//! client retries its request or two submissions race: a client-supplied
//! idempotency key plus the acting principal identify the logical
//! operation, and the store's uniqueness constraint on that pair
//! serializes duplicates. The issue row, one delivery task per confirmed
//! subscriber and the saved response become durable in one atomic step; a
//! separate worker drains the queue one claimed task at a time, retrying
//! transient failures and discarding permanent ones.
//!
//! The durable state lives in [`store`]; the claim protocol in
//! [`idempotency`]; the publish transaction in [`newsletter`]; the worker
//! protocol in [`delivery_worker`]. The surrounding process — HTTP, the
//! real database, the mail provider — hands the library plain values and
//! performs the sends it is asked to.

pub mod configuration;
pub mod delivery_worker;
pub mod domain;
pub mod idempotency;
pub mod login;
pub mod newsletter;
pub mod response;
pub mod startup;
pub mod store;
pub mod subscriptions;
