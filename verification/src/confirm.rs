//! Confirming a pending subscriber from a confirmation link.
//!
//! The link carries the token that registration stored; an unknown token is
//! rejected and changes nothing, a known one marks its subscriber confirmed.
//! Only confirmed subscribers ever receive delivery tasks.

use vstd::prelude::*;

use crate::store::{
    has_subscriber, has_token, lemma_subscriber_index_unique, lemma_token_index_unique,
    subscriber_index_of, token_index_of, Store, Subscriber, SubscriberStatus,
};

verus! {

/// The query parameters of a confirmation link.
pub struct Parameters {
    pub subscription_token: String,
}

/// Rejection of a confirmation request.
#[derive(Debug)]
pub enum ConfirmError {
    /// The token matches no stored confirmation token.
    TokenDoesNotExist,
}

impl ConfirmError {
    /// The HTTP status this rejection is reported with.
    pub open spec fn spec_status_code(&self) -> u16 {
        match self {
            ConfirmError::TokenDoesNotExist => 401,
        }
    }

    /// Returns [`ConfirmError::spec_status_code`]: an unknown token is
    /// answered as unauthorized.
    pub fn status_code(&self) -> (r: u16)
        ensures
            r == self.spec_status_code(),
    {
        match self {
            ConfirmError::TokenDoesNotExist => 401,
        }
    }
}

/// Looks the confirmation token up: the subscriber it was stored for, or
/// `TokenDoesNotExist` exactly when no row carries the token.
#[verifier::loop_isolation(false)]
pub fn get_subscriber_id_from_token(store: &Store, subscription_token: &String) -> (r: Result<
    u64,
    ConfirmError,
>)
    requires
        store.wf(),
    ensures
        has_token(store.subscription_tokens@, subscription_token@) ==> r == Ok::<
            u64,
            ConfirmError,
        >(
            store.subscription_tokens@[token_index_of(
                store.subscription_tokens@,
                subscription_token@,
            )].subscriber_id,
        ),
        !has_token(store.subscription_tokens@, subscription_token@) ==> r == Err::<
            u64,
            ConfirmError,
        >(ConfirmError::TokenDoesNotExist),
{
    let n = store.subscription_tokens.len();
    let mut i: usize = 0;
    while i < n
        invariant
            i <= n,
            n == store.subscription_tokens@.len(),
            forall|k: int| 0 <= k < i
                ==> (#[trigger] store.subscription_tokens@[k]).token@ != subscription_token@,
        decreases n - i,
    {
        let row = &store.subscription_tokens[i];
        if row.token == *subscription_token {
            proof {
                lemma_token_index_unique(*store, subscription_token@, i as int);
            }
            return Ok(row.subscriber_id);
        }
        i = i + 1;
    }
    Err(ConfirmError::TokenDoesNotExist)
}

/// Marks the subscriber with this id confirmed; a missing id changes
/// nothing.
#[verifier::loop_isolation(false)]
pub fn confirm_subscriber(store: &mut Store, subscriber_id: u64)
    requires
        old(store).wf(),
    ensures
        final(store).wf(),
        has_subscriber(old(store).subscribers@, subscriber_id) ==> ({
            let idx = subscriber_index_of(old(store).subscribers@, subscriber_id);
            final(store).subscribers@ == old(store).subscribers@.update(
                idx,
                Subscriber {
                    id: old(store).subscribers@[idx].id,
                    email: old(store).subscribers@[idx].email,
                    status: SubscriberStatus::Confirmed,
                },
            )
        }),
        !has_subscriber(old(store).subscribers@, subscriber_id) ==> *final(store) == *old(store),
        final(store).subscription_tokens == old(store).subscription_tokens,
        final(store).issues == old(store).issues,
        final(store).tasks == old(store).tasks,
        final(store).dead_letters == old(store).dead_letters,
        final(store).idempotency == old(store).idempotency,
        final(store).next_subscriber_id == old(store).next_subscriber_id,
        final(store).next_issue_id == old(store).next_issue_id,
        final(store).next_task_id == old(store).next_task_id,
{
    let n = store.subscribers.len();
    let mut i: usize = 0;
    while i < n
        invariant
            *store == *old(store),
            n == store.subscribers@.len(),
            i <= n,
            forall|k: int| 0 <= k < i ==> (#[trigger] store.subscribers@[k]).id != subscriber_id,
        decreases n - i,
    {
        if store.subscribers[i].id == subscriber_id {
            proof {
                lemma_subscriber_index_unique(*store, subscriber_id, i as int);
            }
            let ghost pre = *store;
            store.subscribers[i].status = SubscriberStatus::Confirmed;
            proof {
                let idx = i as int;
                assert(store.subscribers@ == pre.subscribers@.update(
                    idx,
                    Subscriber {
                        id: pre.subscribers@[idx].id,
                        email: pre.subscribers@[idx].email,
                        status: SubscriberStatus::Confirmed,
                    },
                ));
                assert forall|a: int, b: int| 0 <= a < b < store.subscribers@.len() implies (
                #[trigger] store.subscribers@[a]).id != (#[trigger] store.subscribers@[b]).id by {
                    assert(store.subscribers@[a].id == pre.subscribers@[a].id);
                    assert(store.subscribers@[b].id == pre.subscribers@[b].id);
                }
                assert forall|k: int| 0 <= k < store.subscribers@.len() implies (
                #[trigger] store.subscribers@[k]).id < store.next_subscriber_id by {
                    assert(store.subscribers@[k].id == pre.subscribers@[k].id);
                }
                assert forall|k: int| 0 <= k < store.subscription_tokens@.len()
                    implies has_subscriber(
                    store.subscribers@,
                    (#[trigger] store.subscription_tokens@[k]).subscriber_id,
                ) by {
                    assert(has_subscriber(
                        pre.subscribers@,
                        pre.subscription_tokens@[k].subscriber_id,
                    ));
                    let w = choose|w: int|
                        0 <= w < pre.subscribers@.len() && (#[trigger] pre.subscribers@[w]).id
                            == pre.subscription_tokens@[k].subscriber_id;
                    assert((store.subscribers@[w]).id
                        == store.subscription_tokens@[k].subscriber_id);
                }
            }
            return ;
        }
        i = i + 1;
    }
}

/// Handles one confirmation request: looks the token up and marks its
/// subscriber confirmed. An unknown token is rejected and nothing changes.
pub fn confirm(store: &mut Store, parameters: &Parameters) -> (r: Result<(), ConfirmError>)
    requires
        old(store).wf(),
    ensures
        final(store).wf(),
        !has_token(old(store).subscription_tokens@, parameters.subscription_token@) ==> r == Err::<
            (),
            ConfirmError,
        >(ConfirmError::TokenDoesNotExist) && *final(store) == *old(store),
        has_token(old(store).subscription_tokens@, parameters.subscription_token@) ==> ({
            let sid = old(store).subscription_tokens@[token_index_of(
                old(store).subscription_tokens@,
                parameters.subscription_token@,
            )].subscriber_id;
            let idx = subscriber_index_of(old(store).subscribers@, sid);
            &&& r == Ok::<(), ConfirmError>(())
            &&& final(store).subscribers@ == old(store).subscribers@.update(
                idx,
                Subscriber {
                    id: old(store).subscribers@[idx].id,
                    email: old(store).subscribers@[idx].email,
                    status: SubscriberStatus::Confirmed,
                },
            )
            &&& final(store).subscribers@[idx].status is Confirmed
        }),
        final(store).subscription_tokens == old(store).subscription_tokens,
        final(store).issues == old(store).issues,
        final(store).tasks == old(store).tasks,
        final(store).dead_letters == old(store).dead_letters,
        final(store).idempotency == old(store).idempotency,
        final(store).next_subscriber_id == old(store).next_subscriber_id,
        final(store).next_issue_id == old(store).next_issue_id,
        final(store).next_task_id == old(store).next_task_id,
{
    let id = match get_subscriber_id_from_token(store, &parameters.subscription_token) {
        Ok(id) => id,
        Err(e) => {
            return Err(e);
        },
    };
    confirm_subscriber(store, id);
    Ok(())
}

} // verus!
