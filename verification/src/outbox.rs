//! The outbox enqueuer: one delivery task per confirmed subscriber, written
//! inside the transaction that completes the idempotency record.
//!
//! Because tasks are rows in the same store, enqueueing and
//! response-recording commit or roll back as a unit; there is no separate
//! queue to fall out of step with. A recipient address that fails validation
//! is skipped rather than aborting the batch: a minority of bad addresses
//! must not block delivery to the rest.

use vstd::prelude::*;

use crate::domain::{is_valid_email, is_valid_subscriber_email};
use crate::seqs::{lemma_filter_push, lemma_take_push};
use crate::store::{has_issue, DeliveryTask, Store, Subscriber, SubscriberStatus};

verus! {

/// The subscriber rows an issue is delivered to: confirmed, with an address
/// that passes validation, in table order.
pub open spec fn delivery_rows(subs: Seq<Subscriber>) -> Seq<Subscriber> {
    subs.filter(|s: Subscriber| s.status is Confirmed && is_valid_email(s.email@))
}

/// The recipient addresses that pass validation, in list order.
pub open spec fn valid_recipients(rs: Seq<String>) -> Seq<String> {
    rs.filter(|e: String| is_valid_email(e@))
}

/// Reads the delivery list for one issue: the addresses of the confirmed
/// subscribers, in table order, a snapshot taken once per publish attempt.
/// Subscribers confirmed later are not in it; a confirmed row whose stored
/// address no longer passes validation is skipped rather than failing the
/// publish.
pub fn get_confirmed_subscribers(store: &Store) -> (r: Vec<String>)
    ensures
        r@.len() == delivery_rows(store.subscribers@).len(),
        forall|k: int| 0 <= k < r@.len()
            ==> (#[trigger] r@[k])@ == delivery_rows(store.subscribers@)[k].email@,
{
    let mut out: Vec<String> = Vec::new();
    let n = store.subscribers.len();
    let mut i: usize = 0;
    while i < n
        invariant
            i <= n,
            n == store.subscribers@.len(),
            out@.len() == delivery_rows(store.subscribers@.take(i as int)).len(),
            forall|k: int| 0 <= k < out@.len()
                ==> (#[trigger] out@[k])@
                    == delivery_rows(store.subscribers@.take(i as int))[k].email@,
        decreases n - i,
    {
        proof {
            lemma_take_push(store.subscribers@, i as int);
            lemma_filter_push(
                store.subscribers@.take(i as int),
                store.subscribers@[i as int],
                |s: Subscriber| s.status is Confirmed && is_valid_email(s.email@),
            );
        }
        let s = &store.subscribers[i];
        if s.status == SubscriberStatus::Confirmed && is_valid_subscriber_email(s.email.as_str()) {
            out.push(s.email.clone());
        }
        i = i + 1;
    }
    proof {
        assert(store.subscribers@.take(n as int) =~= store.subscribers@);
    }
    out
}

/// Inserts one delivery task per valid recipient for the given issue, in
/// list order, with fresh task ids and a first attempt eligible at once.
/// Invalid addresses are skipped. Returns how many tasks were inserted.
#[verifier::loop_isolation(false)]
pub fn enqueue_delivery_tasks(store: &mut Store, issue_id: u64, recipients: &Vec<String>) -> (count:
    usize)
    requires
        old(store).wf(),
        has_issue(old(store).issues@, issue_id),
        old(store).next_task_id + recipients@.len() <= u64::MAX,
    ensures
        final(store).wf(),
        count == valid_recipients(recipients@).len(),
        final(store).tasks@.len() == old(store).tasks@.len() + count,
        forall|k: int| 0 <= k < old(store).tasks@.len()
            ==> final(store).tasks@[k] == old(store).tasks@[k],
        forall|k: int| 0 <= k < count ==> {
            let t = #[trigger] final(store).tasks@[old(store).tasks@.len() + k];
            &&& t.id == old(store).next_task_id + k
            &&& t.issue_id == issue_id
            &&& t.recipient@ == valid_recipients(recipients@)[k]@
            &&& t.retry_count == 0
            &&& t.next_attempt_at == 0
        },
        final(store).next_task_id == old(store).next_task_id + count,
        final(store).subscribers == old(store).subscribers,
        final(store).subscription_tokens == old(store).subscription_tokens,
        final(store).issues == old(store).issues,
        final(store).dead_letters == old(store).dead_letters,
        final(store).idempotency == old(store).idempotency,
        final(store).next_subscriber_id == old(store).next_subscriber_id,
        final(store).next_issue_id == old(store).next_issue_id,
{
    let mut count: usize = 0;
    let n = recipients.len();
    let mut i: usize = 0;
    while i < n
        invariant
            i <= n,
            count <= i,
            count == valid_recipients(recipients@.take(i as int)).len(),
            store.wf(),
            store.tasks@.len() == old(store).tasks@.len() + count,
            forall|k: int| 0 <= k < old(store).tasks@.len()
                ==> store.tasks@[k] == old(store).tasks@[k],
            forall|k: int| 0 <= k < count ==> {
                let t = #[trigger] store.tasks@[old(store).tasks@.len() + k];
                &&& t.id == old(store).next_task_id + k
                &&& t.issue_id == issue_id
                &&& t.recipient@ == valid_recipients(recipients@.take(i as int))[k]@
                &&& t.retry_count == 0
                &&& t.next_attempt_at == 0
            },
            store.next_task_id == old(store).next_task_id + count,
            store.subscribers == old(store).subscribers,
            store.subscription_tokens == old(store).subscription_tokens,
            store.issues == old(store).issues,
            store.dead_letters == old(store).dead_letters,
            store.idempotency == old(store).idempotency,
            store.next_subscriber_id == old(store).next_subscriber_id,
            store.next_issue_id == old(store).next_issue_id,
        decreases n - i,
    {
        proof {
            lemma_take_push(recipients@, i as int);
            lemma_filter_push(
                recipients@.take(i as int),
                recipients@[i as int],
                |e: String| is_valid_email(e@),
            );
        }
        let r = &recipients[i];
        if is_valid_subscriber_email(r.as_str()) {
            let ghost pre = *store;
            let t = DeliveryTask {
                id: store.next_task_id,
                issue_id,
                recipient: r.clone(),
                retry_count: 0,
                next_attempt_at: 0,
            };
            store.tasks.push(t);
            store.next_task_id = store.next_task_id + 1;
            count = count + 1;
            proof {
                assert forall|a: int, b: int| 0 <= a < b < store.tasks@.len() implies (
                #[trigger] store.tasks@[a]).id != (#[trigger] store.tasks@[b]).id by {
                    if b < store.tasks@.len() - 1 {
                        assert(store.tasks@[a] == pre.tasks@[a]);
                        assert(store.tasks@[b] == pre.tasks@[b]);
                    } else {
                        assert(store.tasks@[a] == pre.tasks@[a]);
                        assert(pre.tasks@[a].id < pre.next_task_id);
                    }
                }
                assert forall|k: int| 0 <= k < store.tasks@.len() implies (
                #[trigger] store.tasks@[k]).id < store.next_task_id by {
                    if k < store.tasks@.len() - 1 {
                        assert(store.tasks@[k] == pre.tasks@[k]);
                    }
                }
                assert forall|k: int| 0 <= k < store.tasks@.len() implies has_issue(
                    store.issues@,
                    (#[trigger] store.tasks@[k]).issue_id,
                ) by {
                    if k < store.tasks@.len() - 1 {
                        assert(store.tasks@[k] == pre.tasks@[k]);
                        assert(has_issue(pre.issues@, pre.tasks@[k].issue_id));
                    }
                }
            }
        }
        i = i + 1;
    }
    proof {
        assert(recipients@.take(n as int) =~= recipients@);
    }
    count
}

} // verus!
