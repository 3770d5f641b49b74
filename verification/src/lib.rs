//! Idempotent publish and reliable outbox delivery for a subscription
//! newsletter service.
//!
//! The crate models the transactional core of the service: deduplication of a
//! mutating publish request keyed by an idempotency token (with byte-exact
//! replay of the original response), atomic enqueueing of one delivery task
//! per confirmed subscriber, and a background worker step that resolves each
//! claimed task to success, retry with backoff, or a dead-letter record.
//!
//! The relational store that the real service talks to is modelled by
//! [`store::Store`], a value holding the tables the core reads and writes.
//! Every operation on it is a single serialized transaction: it either applies
//! all of its effects or, on an error, leaves the store untouched.

mod confirm;
mod domain;
mod idempotency;
mod outbox;
mod publish;
mod responses;
mod seqs;
mod store;
mod worker;

pub use confirm::{
    confirm, confirm_subscriber, get_subscriber_id_from_token, ConfirmError, Parameters,
};
pub use domain::{
    is_valid_email, is_valid_idempotency_key, is_valid_subscriber_email, validate_idempotency_key,
    BodyData,
};
pub use idempotency::Decision;
pub use outbox::{
    delivery_rows, enqueue_delivery_tasks, get_confirmed_subscribers, valid_recipients,
};
pub use publish::{
    build_accepted_response, is_accepted_response, lemma_atomic_enqueue,
    lemma_concurrent_duplicate, lemma_idempotent_replay, lemma_unconfirmed_exclusion,
    publish_committed, publish_newsletter, publish_replayed, PublishError,
};
pub use responses::{HeaderPair, StoredResponse};
pub use store::{
    has_idem, has_issue, has_subscriber, has_task, has_token, idem_index_of, idem_key_matches,
    issue_index_of, subscriber_index_of, task_index_of, token_index_of, AttemptState,
    DeadLetterReason, DeadLetterRecord, DeliveryTask, IdempotencyRecord, NewsletterIssue, Store,
    Subscriber, SubscriberStatus, SubscriptionToken,
};
pub use worker::{
    backoff_delay, compute_next_attempt, lemma_backoff_monotone, lemma_terminal_exhaustion,
    lemma_transient_recovery, next_action, next_attempt_time, resolve_task, retried,
    transient_steps, DispatchOutcome, TaskResolution, WorkerAction, RETRY_BACKOFF_STEP,
};
