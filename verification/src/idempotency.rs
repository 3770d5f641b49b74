//! The idempotency store: at-most-one execution per (actor, token) key and
//! byte-exact replay of the saved response.
//!
//! A publish attempt first calls [`Store::begin_or_replay`]. If the key is
//! unseen it writes an `InProgress` row and the caller must finish the
//! transaction with [`Store::complete`]; if the key already completed, the
//! saved response is replayed and nothing is written. In the real store a
//! concurrent duplicate blocks on the row lock until the first transaction
//! commits, then re-reads; these operations model the state of affairs after
//! that lock has been acquired, which `Store::key_quiescent` expresses.

use vstd::prelude::*;

use crate::responses::StoredResponse;
use crate::store::{has_idem, has_issue, idem_index_of, idem_key_matches, AttemptState,
    IdempotencyRecord, Store};

verus! {

/// What a publish attempt must do for its key.
pub enum Decision {
    /// The key is unseen: run the side effects, then call [`Store::complete`].
    Proceed,
    /// The key completed earlier: return this response, touch nothing.
    Replay(StoredResponse),
}

/// The index of the record keyed by (actor, token) is unique in a
/// well-formed store, so it equals `idem_index_of`.
pub proof fn lemma_idem_index_unique(s: Store, actor: u64, token: Seq<char>, i: int)
    requires
        s.wf(),
        0 <= i < s.idempotency@.len(),
        idem_key_matches(s.idempotency@[i], actor, token),
    ensures
        idem_index_of(s.idempotency@, actor, token) == i,
{
    let j = idem_index_of(s.idempotency@, actor, token);
    assert(0 <= j < s.idempotency@.len() && idem_key_matches(s.idempotency@[j], actor, token));
}

impl Store {
    /// Looks the key up. On a completed record, replays the saved response
    /// and leaves the store untouched; on an unseen key, inserts an
    /// `InProgress` row and tells the caller to proceed.
    ///
    /// The caller must hold the key's row lock (`key_quiescent`): a record
    /// found for the key can therefore only be `Completed`.
    pub fn begin_or_replay(&mut self, actor: u64, token: &String) -> (d: Decision)
        requires
            old(self).wf(),
            old(self).key_quiescent(actor, token@),
        ensures
            final(self).wf(),
            has_idem(old(self).idempotency@, actor, token@) ==> {
                let rec = old(self).idempotency@[idem_index_of(
                    old(self).idempotency@,
                    actor,
                    token@,
                )];
                &&& *final(self) == *old(self)
                &&& rec.state matches AttemptState::Completed { response, .. }
                    && d matches Decision::Replay(r) && r@ == response@
            },
            !has_idem(old(self).idempotency@, actor, token@) ==> {
                &&& d is Proceed
                &&& final(self).idempotency@.len() == old(self).idempotency@.len() + 1
                &&& forall|k: int| 0 <= k < old(self).idempotency@.len()
                    ==> final(self).idempotency@[k] == old(self).idempotency@[k]
                &&& final(self).idempotency@.last().actor == actor
                &&& final(self).idempotency@.last().token@ == token@
                &&& final(self).idempotency@.last().state is InProgress
                &&& final(self).subscribers == old(self).subscribers
                &&& final(self).subscription_tokens == old(self).subscription_tokens
                &&& final(self).issues == old(self).issues
                &&& final(self).tasks == old(self).tasks
                &&& final(self).dead_letters == old(self).dead_letters
                &&& final(self).next_subscriber_id == old(self).next_subscriber_id
                &&& final(self).next_issue_id == old(self).next_issue_id
                &&& final(self).next_task_id == old(self).next_task_id
            },
    {
        let n = self.idempotency.len();
        let mut i: usize = 0;
        while i < n
            invariant
                n == self.idempotency@.len(),
                i <= n,
                forall|k: int| 0 <= k < i
                    ==> !idem_key_matches(#[trigger] self.idempotency@[k], actor, token@),
                self.wf(),
                self.key_quiescent(actor, token@),
            decreases n - i,
        {
            let rec = &self.idempotency[i];
            if rec.actor == actor && rec.token == *token {
                proof {
                    assert(idem_key_matches(self.idempotency@[i as int], actor, token@));
                    lemma_idem_index_unique(*self, actor, token@, i as int);
                }
                match &rec.state {
                    AttemptState::Completed { response, .. } => {
                        return Decision::Replay(response.duplicate());
                    },
                    AttemptState::InProgress => {
                        proof {
                            assert(false);
                        }
                        return Decision::Proceed;
                    },
                }
            }
            i = i + 1;
        }
        let ghost pre = *self;
        self.idempotency.push(
            IdempotencyRecord { actor, token: token.clone(), state: AttemptState::InProgress },
        );
        proof {
            assert forall|k: int| 0 <= k < self.idempotency@.len() implies ((
            #[trigger] self.idempotency@[k]).state matches AttemptState::Completed {
                issue_id,
                ..
            } ==> has_issue(self.issues@, issue_id)) by {
                if k < self.idempotency@.len() - 1 {
                    assert(self.idempotency@[k] == pre.idempotency@[k]);
                }
            }
        }
        Decision::Proceed
    }

    /// Within the transaction that ran the side effects, marks the key's
    /// `InProgress` row `Completed` with the response to replay and the issue
    /// whose tasks the attempt enqueued.
    #[verifier::loop_isolation(false)]
    pub fn complete(&mut self, actor: u64, token: &String, issue_id: u64, response: StoredResponse)
        requires
            old(self).wf(),
            has_idem(old(self).idempotency@, actor, token@),
            old(self).idempotency@[idem_index_of(old(self).idempotency@, actor, token@)].state
                is InProgress,
            has_issue(old(self).issues@, issue_id),
        ensures
            final(self).wf(),
            ({
                let idx = idem_index_of(old(self).idempotency@, actor, token@);
                final(self).idempotency@ == old(self).idempotency@.update(
                    idx,
                    IdempotencyRecord {
                        actor: old(self).idempotency@[idx].actor,
                        token: old(self).idempotency@[idx].token,
                        state: AttemptState::Completed { issue_id, response },
                    },
                )
            }),
            final(self).subscribers == old(self).subscribers,
            final(self).subscription_tokens == old(self).subscription_tokens,
            final(self).issues == old(self).issues,
            final(self).tasks == old(self).tasks,
            final(self).dead_letters == old(self).dead_letters,
            final(self).next_subscriber_id == old(self).next_subscriber_id,
            final(self).next_issue_id == old(self).next_issue_id,
            final(self).next_task_id == old(self).next_task_id,
    {
        let n = self.idempotency.len();
        let mut i: usize = 0;
        while i < n
            invariant
                *self == *old(self),
                n == self.idempotency@.len(),
                i <= n,
                forall|k: int| 0 <= k < i
                    ==> !idem_key_matches(#[trigger] self.idempotency@[k], actor, token@),
            decreases n - i,
        {
            let found = {
                let rec = &self.idempotency[i];
                rec.actor == actor && rec.token == *token
            };
            if found {
                proof {
                    assert(idem_key_matches(self.idempotency@[i as int], actor, token@));
                    lemma_idem_index_unique(*self, actor, token@, i as int);
                }
                let ghost pre = *self;
                self.idempotency[i].state = AttemptState::Completed { issue_id, response };
                proof {
                    let idx = i as int;
                    assert(self.idempotency@ == pre.idempotency@.update(
                        idx,
                        IdempotencyRecord {
                            actor: pre.idempotency@[idx].actor,
                            token: pre.idempotency@[idx].token,
                            state: self.idempotency@[idx].state,
                        },
                    ));
                    assert forall|k: int| 0 <= k < self.idempotency@.len() implies ((
                    #[trigger] self.idempotency@[k]).state matches AttemptState::Completed {
                        issue_id: iid,
                        ..
                    } ==> has_issue(self.issues@, iid)) by {
                        if k != idx {
                            assert(self.idempotency@[k] == pre.idempotency@[k]);
                        }
                    }
                }
                return ;
            }
            i = i + 1;
        }
        proof {
            assert(!has_idem(self.idempotency@, actor, token@));
            assert(false);
        }
    }
}

} // verus!
