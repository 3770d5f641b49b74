//! The relational store, modelled as a value.
//!
//! The real service keeps its tables in a transactional relational store; all
//! components coordinate exclusively through it. Here the store is a plain
//! value holding those tables, and every library operation on it is one
//! serialized transaction: it either applies all of its effects or, on an
//! error, leaves the store untouched. Row ids are handed out from counters,
//! which makes uniqueness provable.

use vstd::prelude::*;

use crate::responses::StoredResponse;

verus! {

/// Lifecycle of a subscriber row.
#[derive(Clone, Copy, PartialEq, Eq, Structural)]
pub enum SubscriberStatus {
    PendingConfirmation,
    Confirmed,
}

/// One subscriber row.
pub struct Subscriber {
    pub id: u64,
    pub email: String,
    pub status: SubscriberStatus,
}

/// One confirmation-token row: the token a confirmation link carries, and the
/// subscriber it belongs to.
pub struct SubscriptionToken {
    pub token: String,
    pub subscriber_id: u64,
}

/// One stored newsletter issue: the content the worker renders into each
/// delivery.
pub struct NewsletterIssue {
    pub id: u64,
    pub title: String,
    pub html_content: String,
    pub text_content: String,
}

/// One pending delivery task: an issue to send to one recipient. A task row
/// disappears on successful delivery; a terminally failed task moves to the
/// dead-letter table instead.
pub struct DeliveryTask {
    pub id: u64,
    pub issue_id: u64,
    pub recipient: String,
    pub retry_count: u32,
    pub next_attempt_at: u64,
}

/// Why a task was moved to the dead-letter table.
#[derive(Clone, Copy, PartialEq, Eq, Structural)]
pub enum DeadLetterReason {
    /// The delivery channel classified the failure as not retryable.
    RejectedByChannel,
    /// The task kept failing transiently until the retry budget ran out.
    RetriesExhausted,
}

/// Append-only audit record of a task that could not be delivered.
pub struct DeadLetterRecord {
    pub task: DeliveryTask,
    pub reason: DeadLetterReason,
    pub failed_at: u64,
}

/// Lifecycle of an idempotency record.
pub enum AttemptState {
    /// A publish attempt holds the key; its transaction has not committed.
    InProgress,
    /// The attempt committed: the saved response is replayed on retries, and
    /// `issue_id` is the issue whose tasks that attempt enqueued.
    Completed { issue_id: u64, response: StoredResponse },
}

/// One idempotency row, keyed by (actor, token).
pub struct IdempotencyRecord {
    pub actor: u64,
    pub token: String,
    pub state: AttemptState,
}

/// Does record `r` carry the key (actor, token)?
pub open spec fn idem_key_matches(r: IdempotencyRecord, actor: u64, token: Seq<char>) -> bool {
    r.actor == actor && r.token@ == token
}

/// Is some record keyed by (actor, token)?
pub open spec fn has_idem(recs: Seq<IdempotencyRecord>, actor: u64, token: Seq<char>) -> bool {
    exists|i: int| 0 <= i < recs.len() && idem_key_matches(#[trigger] recs[i], actor, token)
}

/// The index of the record keyed by (actor, token); meaningful under
/// [`Store::wf`], which makes that record unique.
pub open spec fn idem_index_of(recs: Seq<IdempotencyRecord>, actor: u64, token: Seq<char>) -> int {
    choose|i: int| 0 <= i < recs.len() && idem_key_matches(#[trigger] recs[i], actor, token)
}

/// Is some task row keyed by `id`?
pub open spec fn has_task(tasks: Seq<DeliveryTask>, id: u64) -> bool {
    exists|i: int| 0 <= i < tasks.len() && (#[trigger] tasks[i]).id == id
}

/// The index of the task keyed by `id`; meaningful under [`Store::wf`].
pub open spec fn task_index_of(tasks: Seq<DeliveryTask>, id: u64) -> int {
    choose|i: int| 0 <= i < tasks.len() && (#[trigger] tasks[i]).id == id
}

/// Is some issue row keyed by `id`?
pub open spec fn has_issue(issues: Seq<NewsletterIssue>, id: u64) -> bool {
    exists|i: int| 0 <= i < issues.len() && (#[trigger] issues[i]).id == id
}

/// The index of the issue keyed by `id`; meaningful under [`Store::wf`].
pub open spec fn issue_index_of(issues: Seq<NewsletterIssue>, id: u64) -> int {
    choose|i: int| 0 <= i < issues.len() && (#[trigger] issues[i]).id == id
}

/// Is some subscriber row keyed by `id`?
pub open spec fn has_subscriber(subs: Seq<Subscriber>, id: u64) -> bool {
    exists|i: int| 0 <= i < subs.len() && (#[trigger] subs[i]).id == id
}

/// The index of the subscriber keyed by `id`; meaningful under [`Store::wf`].
pub open spec fn subscriber_index_of(subs: Seq<Subscriber>, id: u64) -> int {
    choose|i: int| 0 <= i < subs.len() && (#[trigger] subs[i]).id == id
}

/// Is some token row carrying exactly this token string?
pub open spec fn has_token(tokens: Seq<SubscriptionToken>, token: Seq<char>) -> bool {
    exists|i: int| 0 <= i < tokens.len() && (#[trigger] tokens[i]).token@ == token
}

/// The index of the token row carrying this token string; meaningful under
/// [`Store::wf`].
pub open spec fn token_index_of(tokens: Seq<SubscriptionToken>, token: Seq<char>) -> int {
    choose|i: int| 0 <= i < tokens.len() && (#[trigger] tokens[i]).token@ == token
}

/// Task ids are unique in a well-formed store, so the index of a task found
/// by id equals `task_index_of`.
pub proof fn lemma_task_index_unique(s: Store, id: u64, i: int)
    requires
        s.wf(),
        0 <= i < s.tasks@.len(),
        s.tasks@[i].id == id,
    ensures
        task_index_of(s.tasks@, id) == i,
{
    let j = task_index_of(s.tasks@, id);
    assert(0 <= j < s.tasks@.len() && s.tasks@[j].id == id);
}

/// Issue ids are unique in a well-formed store, so the index of an issue
/// found by id equals `issue_index_of`.
pub proof fn lemma_issue_index_unique(s: Store, id: u64, i: int)
    requires
        s.wf(),
        0 <= i < s.issues@.len(),
        s.issues@[i].id == id,
    ensures
        issue_index_of(s.issues@, id) == i,
{
    let j = issue_index_of(s.issues@, id);
    assert(0 <= j < s.issues@.len() && s.issues@[j].id == id);
}

/// Subscriber ids are unique in a well-formed store, so the index of a
/// subscriber found by id equals `subscriber_index_of`.
pub proof fn lemma_subscriber_index_unique(s: Store, id: u64, i: int)
    requires
        s.wf(),
        0 <= i < s.subscribers@.len(),
        s.subscribers@[i].id == id,
    ensures
        subscriber_index_of(s.subscribers@, id) == i,
{
    let j = subscriber_index_of(s.subscribers@, id);
    assert(0 <= j < s.subscribers@.len() && s.subscribers@[j].id == id);
}

/// Token strings are unique in a well-formed store, so the index of a token
/// row found by its string equals `token_index_of`.
pub proof fn lemma_token_index_unique(s: Store, token: Seq<char>, i: int)
    requires
        s.wf(),
        0 <= i < s.subscription_tokens@.len(),
        s.subscription_tokens@[i].token@ == token,
    ensures
        token_index_of(s.subscription_tokens@, token) == i,
{
    let j = token_index_of(s.subscription_tokens@, token);
    assert(0 <= j < s.subscription_tokens@.len() && s.subscription_tokens@[j].token@ == token);
}

/// The tables the core reads and writes, plus the id counters the store hands
/// fresh row ids from.
pub struct Store {
    pub subscribers: Vec<Subscriber>,
    pub subscription_tokens: Vec<SubscriptionToken>,
    pub issues: Vec<NewsletterIssue>,
    pub tasks: Vec<DeliveryTask>,
    pub dead_letters: Vec<DeadLetterRecord>,
    pub idempotency: Vec<IdempotencyRecord>,
    pub next_subscriber_id: u64,
    pub next_issue_id: u64,
    pub next_task_id: u64,
}

impl Store {
    /// Well-formedness: ids are unique and below their counters, idempotency
    /// keys are unique, confirmation tokens are unique, and every task, every
    /// completed idempotency record and every token row points at a row that
    /// exists.
    pub open spec fn wf(self) -> bool {
        &&& forall|i: int| 0 <= i < self.subscribers@.len()
            ==> (#[trigger] self.subscribers@[i]).id < self.next_subscriber_id
        &&& forall|i: int, j: int|
            0 <= i < j < self.subscribers@.len()
                ==> (#[trigger] self.subscribers@[i]).id != (#[trigger] self.subscribers@[j]).id
        &&& forall|i: int| 0 <= i < self.issues@.len()
            ==> (#[trigger] self.issues@[i]).id < self.next_issue_id
        &&& forall|i: int, j: int|
            0 <= i < j < self.issues@.len()
                ==> (#[trigger] self.issues@[i]).id != (#[trigger] self.issues@[j]).id
        &&& forall|i: int| 0 <= i < self.tasks@.len()
            ==> (#[trigger] self.tasks@[i]).id < self.next_task_id
        &&& forall|i: int, j: int|
            0 <= i < j < self.tasks@.len()
                ==> (#[trigger] self.tasks@[i]).id != (#[trigger] self.tasks@[j]).id
        &&& forall|i: int| 0 <= i < self.tasks@.len()
            ==> has_issue(self.issues@, (#[trigger] self.tasks@[i]).issue_id)
        &&& forall|i: int, j: int|
            0 <= i < self.idempotency@.len() && 0 <= j < self.idempotency@.len() && i != j
                ==> !((#[trigger] self.idempotency@[i]).actor == (#[trigger] self.idempotency@[j]).actor
                    && self.idempotency@[i].token@ == self.idempotency@[j].token@)
        &&& forall|i: int| 0 <= i < self.idempotency@.len()
            ==> ((#[trigger] self.idempotency@[i]).state matches AttemptState::Completed { issue_id, .. }
                ==> has_issue(self.issues@, issue_id))
        &&& forall|i: int, j: int|
            0 <= i < j < self.subscription_tokens@.len()
                ==> (#[trigger] self.subscription_tokens@[i]).token@
                    != (#[trigger] self.subscription_tokens@[j]).token@
        &&& forall|i: int| 0 <= i < self.subscription_tokens@.len()
            ==> has_subscriber(self.subscribers@, (#[trigger] self.subscription_tokens@[i]).subscriber_id)
    }

    /// No publish attempt currently holds this key: there is no `InProgress`
    /// row for (actor, token). A publish transaction may only start once the
    /// store's row lock on the key has been acquired, which this stands for.
    pub open spec fn key_quiescent(self, actor: u64, token: Seq<char>) -> bool {
        forall|i: int|
            0 <= i < self.idempotency@.len()
                && idem_key_matches(#[trigger] self.idempotency@[i], actor, token)
                ==> !(self.idempotency@[i].state is InProgress)
    }

    /// An empty store: no rows, counters at zero.
    pub fn new() -> (s: Store)
        ensures
            s.wf(),
            s.subscribers@ =~= Seq::<Subscriber>::empty(),
            s.subscription_tokens@ =~= Seq::<SubscriptionToken>::empty(),
            s.issues@ =~= Seq::<NewsletterIssue>::empty(),
            s.tasks@ =~= Seq::<DeliveryTask>::empty(),
            s.dead_letters@ =~= Seq::<DeadLetterRecord>::empty(),
            s.idempotency@ =~= Seq::<IdempotencyRecord>::empty(),
            s.next_subscriber_id == 0,
            s.next_issue_id == 0,
            s.next_task_id == 0,
    {
        Store {
            subscribers: Vec::new(),
            subscription_tokens: Vec::new(),
            issues: Vec::new(),
            tasks: Vec::new(),
            dead_letters: Vec::new(),
            idempotency: Vec::new(),
            next_subscriber_id: 0,
            next_issue_id: 0,
            next_task_id: 0,
        }
    }

    /// Registers a subscriber as pending confirmation, together with the
    /// confirmation token mailed to them. Stands for the registration flow
    /// outside this core: it only writes the two rows the core later reads.
    pub fn insert_subscriber(&mut self, email: String, token: String) -> (id: u64)
        requires
            old(self).wf(),
            old(self).next_subscriber_id < u64::MAX,
            !has_token(old(self).subscription_tokens@, token@),
        ensures
            final(self).wf(),
            id == old(self).next_subscriber_id,
            final(self).subscribers@ == old(self).subscribers@.push(
                Subscriber { id: id, email: email, status: SubscriberStatus::PendingConfirmation },
            ),
            final(self).subscription_tokens@ == old(self).subscription_tokens@.push(
                SubscriptionToken { token: token, subscriber_id: id },
            ),
            final(self).next_subscriber_id == old(self).next_subscriber_id + 1,
            final(self).issues == old(self).issues,
            final(self).tasks == old(self).tasks,
            final(self).dead_letters == old(self).dead_letters,
            final(self).idempotency == old(self).idempotency,
            final(self).next_issue_id == old(self).next_issue_id,
            final(self).next_task_id == old(self).next_task_id,
    {
        let id = self.next_subscriber_id;
        self.subscribers.push(
            Subscriber { id, email, status: SubscriberStatus::PendingConfirmation },
        );
        self.subscription_tokens.push(SubscriptionToken { token, subscriber_id: id });
        self.next_subscriber_id = id + 1;
        proof {
            let subs = self.subscribers@;
            let toks = self.subscription_tokens@;
            assert forall|i: int| 0 <= i < toks.len() implies has_subscriber(
                subs,
                (#[trigger] toks[i]).subscriber_id,
            ) by {
                if i < toks.len() - 1 {
                    let k = choose|k: int|
                        0 <= k < old(self).subscribers@.len()
                            && (#[trigger] old(self).subscribers@[k]).id == toks[i].subscriber_id;
                    assert((subs[k]).id == toks[i].subscriber_id);
                } else {
                    assert((subs[subs.len() - 1]).id == toks[i].subscriber_id);
                }
            }
            assert forall|i: int| 0 <= i < self.tasks@.len() implies has_issue(
                self.issues@,
                (#[trigger] self.tasks@[i]).issue_id,
            ) by {
                assert(has_issue(old(self).issues@, old(self).tasks@[i].issue_id));
            }
        }
        id
    }
}

} // verus!
