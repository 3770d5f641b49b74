//! The delivery worker's decision core.
//!
//! The worker loop lives outside this crate: it claims a due task, hands the
//! recipient and the rendered issue to the delivery channel, and reports the
//! channel's verdict back. What is here is every decision of that loop:
//! which task is due ([`next_action`]), and what one verdict does to the
//! store ([`resolve_task`]) — delete on success, reschedule with a backoff
//! that never shrinks as retries accumulate, or move the task to the
//! dead-letter table once the channel rejects it or the retry budget is
//! spent. Claiming relies on the store's row locks to keep concurrent
//! workers off each other's tasks; within one claim, these transitions are
//! exact.
//!
//! A worker that crashes after dispatching but before resolving leaves the
//! task pending, and the next claim dispatches it again: delivery is
//! at-least-once, and exactly-once only if the channel deduplicates per
//! message. The task table accepts that trade-off rather than risk losing a
//! message by deleting before the channel has answered.

use vstd::prelude::*;

use crate::seqs::lemma_update_then_remove;
use crate::store::{
    has_issue, has_task, issue_index_of, task_index_of, DeadLetterReason, DeadLetterRecord,
    DeliveryTask, NewsletterIssue, Store,
};

verus! {

/// Abstract time units added to the backoff for each retry already made.
pub const RETRY_BACKOFF_STEP: u64 = 30;

/// How long a task rests after its `retry_count`-th failure: one step more
/// for every retry, so the delay never shrinks as retries accumulate.
pub open spec fn backoff_delay(retry_count: u32) -> int {
    RETRY_BACKOFF_STEP * (retry_count + 1)
}

/// When a task that failed at `now` with `retry_count` retries becomes
/// eligible again, saturating at the largest representable time.
pub open spec fn next_attempt_time(now: u64, retry_count: u32) -> u64 {
    if now + backoff_delay(retry_count) > u64::MAX {
        u64::MAX
    } else {
        (now + backoff_delay(retry_count)) as u64
    }
}

/// The backoff policy is monotone: more retries never shorten the delay or
/// the eligibility time, and a task never becomes eligible before `now`.
pub proof fn lemma_backoff_monotone(now: u64, r1: u32, r2: u32)
    requires
        r1 <= r2,
    ensures
        backoff_delay(r1) <= backoff_delay(r2),
        next_attempt_time(now, r1) <= next_attempt_time(now, r2),
        now <= next_attempt_time(now, r1),
{
}

/// Computes [`next_attempt_time`].
pub fn compute_next_attempt(now: u64, retry_count: u32) -> (t: u64)
    ensures
        t == next_attempt_time(now, retry_count),
{
    let delay: u64 = RETRY_BACKOFF_STEP * (retry_count as u64 + 1);
    now.saturating_add(delay)
}

/// How the delivery channel classified one dispatch, per the failure
/// taxonomy: transient failures are retried, terminal ones are not.
#[derive(Clone, Copy, PartialEq, Eq, Structural)]
pub enum DispatchOutcome {
    /// The channel accepted the message.
    Delivered,
    /// A failure worth retrying: network trouble, an overloaded provider.
    TransientFailure,
    /// A failure retrying cannot fix: the channel rejected the recipient.
    TerminalFailure,
}

/// What [`resolve_task`] did with the task.
#[derive(Clone, Copy, Debug, PartialEq, Eq, Structural)]
pub enum TaskResolution {
    /// Delivered: the task row is gone.
    Delivered,
    /// Transient failure within budget: the task stays, eligible later.
    Rescheduled,
    /// Terminal failure or exhausted budget: the task moved to the
    /// dead-letter table.
    DeadLettered,
}

/// What the worker should do next.
pub enum WorkerAction {
    /// Dispatch this recipient and content to the delivery channel, then
    /// report the outcome through [`resolve_task`].
    Dispatch {
        task_id: u64,
        recipient: String,
        title: String,
        html_content: String,
        text_content: String,
    },
    /// No task is due: sleep for the polling backoff and ask again.
    Idle,
}

/// The task after one more transient failure at `now`: same task, one more
/// retry, eligible again only after the backoff.
pub open spec fn retried(t: DeliveryTask, now: u64) -> DeliveryTask {
    DeliveryTask {
        retry_count: (t.retry_count + 1) as u32,
        next_attempt_at: next_attempt_time(now, (t.retry_count + 1) as u32),
        ..t
    }
}

/// Picks the first task whose eligibility time has passed, if any, and
/// returns what to dispatch for it. Returns `Idle` exactly when no task is
/// due. Claiming a row is the store's row lock in the real service; here the
/// claim is the choice itself.
#[verifier::loop_isolation(false)]
pub fn next_action(store: &Store, now: u64) -> (a: WorkerAction)
    requires
        store.wf(),
    ensures
        a is Idle ==> forall|i: int| 0 <= i < store.tasks@.len()
            ==> (#[trigger] store.tasks@[i]).next_attempt_at > now,
        a matches WorkerAction::Dispatch { task_id, recipient, title, html_content, text_content }
            ==> {
            &&& has_task(store.tasks@, task_id)
            &&& {
                let t = store.tasks@[task_index_of(store.tasks@, task_id)];
                let issue = store.issues@[issue_index_of(store.issues@, t.issue_id)];
                &&& t.next_attempt_at <= now
                &&& recipient@ == t.recipient@
                &&& has_issue(store.issues@, t.issue_id)
                &&& title@ == issue.title@
                &&& html_content@ == issue.html_content@
                &&& text_content@ == issue.text_content@
            }
        },
{
    let n = store.tasks.len();
    let mut i: usize = 0;
    while i < n
        invariant
            i <= n,
            forall|k: int| 0 <= k < i ==> (#[trigger] store.tasks@[k]).next_attempt_at > now,
        decreases n - i,
    {
        if store.tasks[i].next_attempt_at <= now {
            let t = &store.tasks[i];
            proof {
                crate::store::lemma_task_index_unique(*store, t.id, i as int);
            }
            let m = store.issues.len();
            let mut j: usize = 0;
            while j < m
                invariant
                    j <= m,
                    forall|k: int| 0 <= k < j ==> (#[trigger] store.issues@[k]).id != t.issue_id,
                decreases m - j,
            {
                if store.issues[j].id == t.issue_id {
                    proof {
                        crate::store::lemma_issue_index_unique(*store, t.issue_id, j as int);
                    }
                    let issue = &store.issues[j];
                    return WorkerAction::Dispatch {
                        task_id: t.id,
                        recipient: t.recipient.clone(),
                        title: issue.title.clone(),
                        html_content: issue.html_content.clone(),
                        text_content: issue.text_content.clone(),
                    };
                }
                j = j + 1;
            }
            proof {
                assert(!has_issue(store.issues@, t.issue_id));
                assert(false);
            }
        }
        i = i + 1;
    }
    WorkerAction::Idle
}

/// Applies the channel's verdict to a claimed task, in one transaction:
/// success deletes the row; a transient failure within the retry budget
/// reschedules it with the monotone backoff; a terminal failure, or a
/// transient one at an exhausted budget, appends one dead-letter record and
/// deletes the row.
#[verifier::loop_isolation(false)]
pub fn resolve_task(
    store: &mut Store,
    task_id: u64,
    outcome: DispatchOutcome,
    now: u64,
    max_retries: u32,
) -> (res: TaskResolution)
    requires
        old(store).wf(),
        has_task(old(store).tasks@, task_id),
    ensures
        final(store).wf(),
        ({
            let i = task_index_of(old(store).tasks@, task_id);
            let t = old(store).tasks@[i];
            &&& (outcome is Delivered ==> final(store).tasks@ == old(store).tasks@.remove(i)
                && final(store).dead_letters == old(store).dead_letters
                && res == TaskResolution::Delivered)
            &&& ((outcome is TransientFailure && t.retry_count < max_retries)
                ==> final(store).tasks@ == old(store).tasks@.update(i, retried(t, now))
                && final(store).dead_letters == old(store).dead_letters
                && res == TaskResolution::Rescheduled)
            &&& ((outcome is TransientFailure && t.retry_count >= max_retries)
                ==> final(store).tasks@ == old(store).tasks@.remove(i)
                && final(store).dead_letters@ == old(store).dead_letters@.push(
                DeadLetterRecord {
                    task: t,
                    reason: DeadLetterReason::RetriesExhausted,
                    failed_at: now,
                },
            ) && res == TaskResolution::DeadLettered)
            &&& (outcome is TerminalFailure ==> final(store).tasks@ == old(store).tasks@.remove(i)
                && final(store).dead_letters@ == old(store).dead_letters@.push(
                DeadLetterRecord {
                    task: t,
                    reason: DeadLetterReason::RejectedByChannel,
                    failed_at: now,
                },
            ) && res == TaskResolution::DeadLettered)
        }),
        final(store).subscribers == old(store).subscribers,
        final(store).subscription_tokens == old(store).subscription_tokens,
        final(store).issues == old(store).issues,
        final(store).idempotency == old(store).idempotency,
        final(store).next_subscriber_id == old(store).next_subscriber_id,
        final(store).next_issue_id == old(store).next_issue_id,
        final(store).next_task_id == old(store).next_task_id,
{
    let n = store.tasks.len();
    let mut i: usize = 0;
    while i < n
        invariant
            *store == *old(store),
            n == store.tasks@.len(),
            i <= n,
            forall|k: int| 0 <= k < i ==> (#[trigger] store.tasks@[k]).id != task_id,
        decreases n - i,
    {
        if store.tasks[i].id == task_id {
            proof {
                crate::store::lemma_task_index_unique(*store, task_id, i as int);
            }
            match outcome {
                DispatchOutcome::Delivered => {
                    let _removed = store.tasks.remove(i);
                    proof {
                        lemma_wf_after_task_remove(*old(store), *store, i as int);
                    }
                    return TaskResolution::Delivered;
                },
                DispatchOutcome::TransientFailure => {
                    let rc = store.tasks[i].retry_count;
                    if rc < max_retries {
                        let ghost pre = *store;
                        store.tasks[i].retry_count = rc + 1;
                        store.tasks[i].next_attempt_at = compute_next_attempt(now, rc + 1);
                        proof {
                            assert(store.tasks@ =~= pre.tasks@.update(
                                i as int,
                                retried(pre.tasks@[i as int], now),
                            ));
                            lemma_wf_after_task_update(pre, *store, i as int);
                        }
                        return TaskResolution::Rescheduled;
                    } else {
                        let removed = store.tasks.remove(i);
                        store.dead_letters.push(
                            DeadLetterRecord {
                                task: removed,
                                reason: DeadLetterReason::RetriesExhausted,
                                failed_at: now,
                            },
                        );
                        proof {
                            lemma_wf_after_task_remove(*old(store), *store, i as int);
                        }
                        return TaskResolution::DeadLettered;
                    }
                },
                DispatchOutcome::TerminalFailure => {
                    let removed = store.tasks.remove(i);
                    store.dead_letters.push(
                        DeadLetterRecord {
                            task: removed,
                            reason: DeadLetterReason::RejectedByChannel,
                            failed_at: now,
                        },
                    );
                    proof {
                        lemma_wf_after_task_remove(*old(store), *store, i as int);
                    }
                    return TaskResolution::DeadLettered;
                },
            }
        }
        i = i + 1;
    }
    proof {
        assert(!has_task(store.tasks@, task_id));
        assert(false);
    }
    TaskResolution::Delivered
}

/// The task table after successive transient failures of the task at index
/// `i`, one per entry of `times`, each resolved within the retry budget.
pub open spec fn transient_steps(tasks: Seq<DeliveryTask>, i: int, times: Seq<u64>) -> Seq<
    DeliveryTask,
>
    decreases times.len(),
{
    if times.len() == 0 {
        tasks
    } else {
        transient_steps(tasks.update(i, retried(tasks[i], times[0])), i, times.drop_first())
    }
}

/// Law: transient-failure recovery. A task that keeps failing transiently
/// within its retry budget is rescheduled, never copied: after any run of
/// such failures the table still holds exactly one row for it, with the same
/// id, issue and recipient, and once a dispatch succeeds the resolving
/// deletion leaves the table exactly as it would have been had the task
/// succeeded at once — the other rows untouched, the task gone, no
/// dead-letter written (success and reschedule never touch the dead-letter
/// table).
pub proof fn lemma_transient_recovery(
    tasks: Seq<DeliveryTask>,
    i: int,
    times: Seq<u64>,
    max_retries: u32,
)
    requires
        0 <= i < tasks.len(),
        tasks[i].retry_count + times.len() <= max_retries,
    ensures
        transient_steps(tasks, i, times).len() == tasks.len(),
        forall|k: int| 0 <= k < tasks.len() && k != i
            ==> #[trigger] transient_steps(tasks, i, times)[k] == tasks[k],
        transient_steps(tasks, i, times)[i].id == tasks[i].id,
        transient_steps(tasks, i, times)[i].issue_id == tasks[i].issue_id,
        transient_steps(tasks, i, times)[i].recipient == tasks[i].recipient,
        transient_steps(tasks, i, times)[i].retry_count == tasks[i].retry_count + times.len(),
        transient_steps(tasks, i, times).remove(i) == tasks.remove(i),
    decreases times.len(),
{
    if times.len() > 0 {
        let stepped = tasks.update(i, retried(tasks[i], times[0]));
        lemma_transient_recovery(stepped, i, times.drop_first(), max_retries);
        lemma_update_then_remove(tasks, i, retried(tasks[i], times[0]));
    }
}

/// Law: terminal exhaustion. A task that starts fresh and fails transiently
/// on every attempt reaches its retry budget after `max_retries` reschedules;
/// the next transient failure resolves it to exactly one dead-letter record
/// (reason: retries exhausted) and removes it from the task table, which ends
/// as if the task had simply been taken out.
pub proof fn lemma_terminal_exhaustion(
    tasks: Seq<DeliveryTask>,
    i: int,
    times: Seq<u64>,
    max_retries: u32,
)
    requires
        0 <= i < tasks.len(),
        tasks[i].retry_count == 0,
        times.len() == max_retries,
    ensures
        transient_steps(tasks, i, times)[i].retry_count == max_retries,
        transient_steps(tasks, i, times)[i].id == tasks[i].id,
        transient_steps(tasks, i, times)[i].recipient == tasks[i].recipient,
        transient_steps(tasks, i, times).remove(i) == tasks.remove(i),
        transient_steps(tasks, i, times).len() == tasks.len(),
{
    lemma_transient_recovery(tasks, i, times, max_retries);
}

/// Removing one task row keeps the store well-formed; the other tables may
/// have changed only in the dead-letter table.
proof fn lemma_wf_after_task_remove(pre: Store, post: Store, i: int)
    requires
        pre.wf(),
        0 <= i < pre.tasks@.len(),
        post.tasks@ == pre.tasks@.remove(i),
        post.issues == pre.issues,
        post.subscribers == pre.subscribers,
        post.subscription_tokens == pre.subscription_tokens,
        post.idempotency == pre.idempotency,
        post.next_subscriber_id == pre.next_subscriber_id,
        post.next_issue_id == pre.next_issue_id,
        post.next_task_id == pre.next_task_id,
    ensures
        post.wf(),
{
    assert forall|a: int, b: int| 0 <= a < b < post.tasks@.len() implies (
    #[trigger] post.tasks@[a]).id != (#[trigger] post.tasks@[b]).id by {
        let a0: int = if a < i {
            a
        } else {
            a + 1
        };
        let b0: int = if b < i {
            b
        } else {
            b + 1
        };
        assert(post.tasks@[a] == pre.tasks@[a0]);
        assert(post.tasks@[b] == pre.tasks@[b0]);
    }
    assert forall|k: int| 0 <= k < post.tasks@.len() implies (#[trigger] post.tasks@[k]).id
        < post.next_task_id && has_issue(post.issues@, post.tasks@[k].issue_id) by {
        let k0: int = if k < i {
            k
        } else {
            k + 1
        };
        assert(post.tasks@[k] == pre.tasks@[k0]);
        assert(has_issue(pre.issues@, pre.tasks@[k0].issue_id));
    }
}

/// Rescheduling one task row in place keeps the store well-formed: the id
/// and the issue reference are unchanged.
proof fn lemma_wf_after_task_update(pre: Store, post: Store, i: int)
    requires
        pre.wf(),
        0 <= i < pre.tasks@.len(),
        post.tasks@.len() == pre.tasks@.len(),
        forall|k: int| 0 <= k < pre.tasks@.len() && k != i
            ==> post.tasks@[k] == pre.tasks@[k],
        post.tasks@[i].id == pre.tasks@[i].id,
        post.tasks@[i].issue_id == pre.tasks@[i].issue_id,
        post.issues == pre.issues,
        post.subscribers == pre.subscribers,
        post.subscription_tokens == pre.subscription_tokens,
        post.idempotency == pre.idempotency,
        post.next_subscriber_id == pre.next_subscriber_id,
        post.next_issue_id == pre.next_issue_id,
        post.next_task_id == pre.next_task_id,
    ensures
        post.wf(),
{
    assert forall|a: int, b: int| 0 <= a < b < post.tasks@.len() implies (
    #[trigger] post.tasks@[a]).id != (#[trigger] post.tasks@[b]).id by {
        assert(post.tasks@[a].id == pre.tasks@[a].id);
        assert(post.tasks@[b].id == pre.tasks@[b].id);
    }
    assert forall|k: int| 0 <= k < post.tasks@.len() implies (#[trigger] post.tasks@[k]).id
        < post.next_task_id && has_issue(post.issues@, post.tasks@[k].issue_id) by {
        assert(post.tasks@[k].id == pre.tasks@[k].id);
        assert(post.tasks@[k].issue_id == pre.tasks@[k].issue_id);
        assert(has_issue(pre.issues@, pre.tasks@[k].issue_id));
    }
}

} // verus!
