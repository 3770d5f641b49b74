//! The publish handler: authentication first, validation second, then one
//! transaction that enqueues the delivery tasks and completes the
//! idempotency record together.
//!
//! A retried request with the same (actor, token) key replays the saved
//! response byte for byte and enqueues nothing. Any rejection happens before
//! the store is touched, so a failed publish leaves no partial rows behind.

use vstd::prelude::*;

use crate::domain::{is_valid_email, is_valid_idempotency_key, validate_idempotency_key, BodyData};
use crate::idempotency::Decision;
use crate::outbox::{delivery_rows, enqueue_delivery_tasks, get_confirmed_subscribers};
use crate::responses::{HeaderPair, StoredResponse, StoredResponseView};
use crate::seqs::lemma_filter_all;
use crate::store::{
    has_idem, has_issue, idem_index_of, idem_key_matches, AttemptState, NewsletterIssue, Store,
    Subscriber,
};

verus! {

/// Rejection of a publish request. Both variants are decided before any
/// store access, so a rejected request changes nothing.
#[derive(Debug)]
pub enum PublishError {
    /// The caller could not be authenticated.
    AuthError,
    /// Title, HTML content, plain-text content or the idempotency token was
    /// empty.
    ValidationError,
}

impl PublishError {
    /// The HTTP status this rejection is reported with.
    pub open spec fn spec_status_code(&self) -> u16 {
        match self {
            PublishError::AuthError => 401,
            PublishError::ValidationError => 400,
        }
    }

    /// Returns [`PublishError::spec_status_code`]: 401 for a failed
    /// authentication, 400 for malformed input.
    pub fn status_code(&self) -> (r: u16)
        ensures
            r == self.spec_status_code(),
    {
        match self {
            PublishError::AuthError => 401,
            PublishError::ValidationError => 400,
        }
    }

    /// The response a rejected request is answered with. A failed
    /// authentication carries the challenge header asking the client for
    /// basic credentials; both bodies are empty.
    pub fn error_response(&self) -> (r: StoredResponse)
        ensures
            r@.status == self.spec_status_code(),
            r@.body.len() == 0,
            self is AuthError ==> r@.headers.len() == 1
                && r@.headers[0].name == "WWW-Authenticate"@
                && r@.headers[0].value == "Basic realm=\"publish\""@,
            self is ValidationError ==> r@.headers.len() == 0,
    {
        match self {
            PublishError::AuthError => {
                let mut headers: Vec<HeaderPair> = Vec::new();
                headers.push(
                    HeaderPair {
                        name: "WWW-Authenticate".to_owned(),
                        value: "Basic realm=\"publish\"".to_owned(),
                    },
                );
                StoredResponse { status: 401, headers, body: Vec::new() }
            },
            PublishError::ValidationError => {
                StoredResponse { status: 400, headers: Vec::new(), body: Vec::new() }
            },
        }
    }
}

/// The "accepted" response of a successful publish: a redirect back to the
/// newsletter form, with an empty body.
pub open spec fn is_accepted_response(v: StoredResponseView) -> bool {
    &&& v.status == 303
    &&& v.headers.len() == 1
    &&& v.headers[0].name == "Location"@
    &&& v.headers[0].value == "/admin/newsletters"@
    &&& v.body.len() == 0
}

/// Builds the "accepted" response.
pub fn build_accepted_response() -> (r: StoredResponse)
    ensures
        is_accepted_response(r@),
{
    let mut headers: Vec<HeaderPair> = Vec::new();
    headers.push(
        HeaderPair { name: "Location".to_owned(), value: "/admin/newsletters".to_owned() },
    );
    StoredResponse { status: 303, headers, body: Vec::new() }
}

/// The publish attempt found its key completed and replayed: the store is
/// untouched and `resp` is the saved response, byte for byte.
pub open spec fn publish_replayed(
    s0: Store,
    s1: Store,
    actor: u64,
    key: Seq<char>,
    resp: StoredResponseView,
) -> bool {
    &&& s1 == s0
    &&& has_idem(s0.idempotency@, actor, key)
    &&& (s0.idempotency@[idem_index_of(s0.idempotency@, actor, key)].state matches
        AttemptState::Completed { response, .. } && resp == response@)
}

/// The publish attempt ran: one new issue row holding the request's content,
/// one new delivery task per confirmed valid subscriber (in table order, with
/// fresh ids, eligible at once), and one new completed idempotency record
/// saving the accepted response — all committed together, everything else
/// untouched.
pub open spec fn publish_committed(
    s0: Store,
    s1: Store,
    actor: u64,
    key: Seq<char>,
    body: BodyData,
    resp: StoredResponseView,
) -> bool {
    let issue_id = s0.next_issue_id;
    let rows = delivery_rows(s0.subscribers@);
    &&& is_accepted_response(resp)
    &&& s1.issues@.len() == s0.issues@.len() + 1
    &&& (forall|k: int| 0 <= k < s0.issues@.len() ==> s1.issues@[k] == s0.issues@[k])
    &&& s1.issues@.last().id == issue_id
    &&& s1.issues@.last().title@ == body.title@
    &&& s1.issues@.last().html_content@ == body.html_content@
    &&& s1.issues@.last().text_content@ == body.text_content@
    &&& s1.next_issue_id == s0.next_issue_id + 1
    &&& s1.tasks@.len() == s0.tasks@.len() + rows.len()
    &&& (forall|k: int| 0 <= k < s0.tasks@.len() ==> s1.tasks@[k] == s0.tasks@[k])
    &&& (forall|k: int| 0 <= k < rows.len() ==> {
        let t = #[trigger] s1.tasks@[s0.tasks@.len() + k];
        &&& t.id == s0.next_task_id + k
        &&& t.issue_id == issue_id
        &&& t.recipient@ == rows[k].email@
        &&& t.retry_count == 0
        &&& t.next_attempt_at == 0
    })
    &&& s1.next_task_id == s0.next_task_id + rows.len()
    &&& s1.idempotency@.len() == s0.idempotency@.len() + 1
    &&& (forall|k: int| 0 <= k < s0.idempotency@.len() ==> s1.idempotency@[k] == s0.idempotency@[k])
    &&& s1.idempotency@.last().actor == actor
    &&& s1.idempotency@.last().token@ == key
    &&& (s1.idempotency@.last().state matches AttemptState::Completed { issue_id: iid, response }
        && iid == issue_id && response@ == resp)
    &&& s1.subscribers == s0.subscribers
    &&& s1.subscription_tokens == s0.subscription_tokens
    &&& s1.dead_letters == s0.dead_letters
    &&& s1.next_subscriber_id == s0.next_subscriber_id
}

/// Handles one publish request: authenticates (the capability is handed in
/// as the already-resolved actor id), validates the body and the idempotency
/// token, then either replays the key's saved response or runs the one
/// transaction that stores the issue, enqueues the delivery tasks and
/// completes the idempotency record.
pub fn publish_newsletter(
    store: &mut Store,
    auth: Option<u64>,
    body: &BodyData,
    idempotency_key: &String,
) -> (r: Result<StoredResponse, PublishError>)
    requires
        old(store).wf(),
        auth is Some ==> old(store).key_quiescent(auth->0, idempotency_key@),
        auth is Some ==> old(store).next_issue_id < u64::MAX,
        auth is Some ==> old(store).next_task_id + old(store).subscribers@.len() <= u64::MAX,
    ensures
        final(store).wf(),
        r is Err ==> *final(store) == *old(store),
        auth is None ==> r == Err::<StoredResponse, PublishError>(PublishError::AuthError),
        (auth is Some && !(body.is_valid() && is_valid_idempotency_key(idempotency_key@))) ==> r
            == Err::<StoredResponse, PublishError>(PublishError::ValidationError),
        (auth is Some && body.is_valid() && is_valid_idempotency_key(idempotency_key@)) ==> {
            let actor = auth->0;
            &&& r is Ok
            &&& has_idem(old(store).idempotency@, actor, idempotency_key@) ==> publish_replayed(
                *old(store),
                *final(store),
                actor,
                idempotency_key@,
                r->Ok_0@,
            )
            &&& !has_idem(old(store).idempotency@, actor, idempotency_key@)
                ==> publish_committed(
                *old(store),
                *final(store),
                actor,
                idempotency_key@,
                *body,
                r->Ok_0@,
            )
            &&& final(store).key_quiescent(actor, idempotency_key@)
        },
{
    let actor = match auth {
        Option::None => {
            return Err(PublishError::AuthError);
        },
        Option::Some(a) => a,
    };
    if !body.validate() || !validate_idempotency_key(idempotency_key.as_str()) {
        return Err(PublishError::ValidationError);
    }
    match store.begin_or_replay(actor, idempotency_key) {
        Decision::Replay(resp) => Ok(resp),
        Decision::Proceed => {
            let ghost s0 = *old(store);
            let ghost s_begun = *store;
            // Store the issue row the tasks will reference.
            let issue_id = store.next_issue_id;
            store.issues.push(
                NewsletterIssue {
                    id: issue_id,
                    title: body.title.clone(),
                    html_content: body.html_content.clone(),
                    text_content: body.text_content.clone(),
                },
            );
            store.next_issue_id = issue_id + 1;
            proof {
                let s = *store;
                assert forall|a: int, b: int| 0 <= a < b < s.issues@.len() implies (
                #[trigger] s.issues@[a]).id != (#[trigger] s.issues@[b]).id by {
                    if b < s.issues@.len() - 1 {
                        assert(s.issues@[a] == s_begun.issues@[a]);
                        assert(s.issues@[b] == s_begun.issues@[b]);
                    } else {
                        assert(s.issues@[a] == s_begun.issues@[a]);
                        assert(s_begun.issues@[a].id < s_begun.next_issue_id);
                    }
                }
                assert forall|k: int| 0 <= k < s.issues@.len() implies (
                #[trigger] s.issues@[k]).id < s.next_issue_id by {
                    if k < s.issues@.len() - 1 {
                        assert(s.issues@[k] == s_begun.issues@[k]);
                    }
                }
                assert forall|k: int| 0 <= k < s.tasks@.len() implies has_issue(
                    s.issues@,
                    (#[trigger] s.tasks@[k]).issue_id,
                ) by {
                    assert(has_issue(s_begun.issues@, s_begun.tasks@[k].issue_id));
                    let w = choose|w: int|
                        0 <= w < s_begun.issues@.len() && (#[trigger] s_begun.issues@[w]).id
                            == s_begun.tasks@[k].issue_id;
                    assert((s.issues@[w]).id == s.tasks@[k].issue_id);
                }
                assert forall|k: int| 0 <= k < s.idempotency@.len() implies ((
                #[trigger] s.idempotency@[k]).state matches AttemptState::Completed {
                    issue_id: iid,
                    ..
                } ==> has_issue(s.issues@, iid)) by {
                    match s.idempotency@[k].state {
                        AttemptState::Completed { issue_id: iid, .. } => {
                            assert(has_issue(s_begun.issues@, iid));
                            let w = choose|w: int|
                                0 <= w < s_begun.issues@.len() && (
                                #[trigger] s_begun.issues@[w]).id == iid;
                            assert((s.issues@[w]).id == iid);
                        },
                        AttemptState::InProgress => {},
                    }
                }
                assert(has_issue(store.issues@, issue_id)) by {
                    assert((store.issues@[store.issues@.len() - 1]).id == issue_id);
                }
            }
            // Snapshot the delivery list and enqueue one task per recipient.
            let recipients = get_confirmed_subscribers(store);
            proof {
                let subs = s0.subscribers@;
                let pred = |s: Subscriber| s.status is Confirmed && is_valid_email(s.email@);
                subs.lemma_filter_len(pred);
                assert forall|k: int| 0 <= k < recipients@.len() implies is_valid_email(
                    (#[trigger] recipients@[k])@,
                ) by {
                    subs.lemma_filter_pred(pred, k);
                }
                lemma_filter_all(recipients@, |e: String| is_valid_email(e@));
            }
            let _count = enqueue_delivery_tasks(store, issue_id, &recipients);
            // Save the response to replay and complete the record, in the
            // same transaction.
            let resp = build_accepted_response();
            let saved = resp.duplicate();
            proof {
                assert(idem_key_matches(
                    store.idempotency@[s0.idempotency@.len() as int],
                    actor,
                    idempotency_key@,
                ));
                crate::idempotency::lemma_idem_index_unique(
                    *store,
                    actor,
                    idempotency_key@,
                    s0.idempotency@.len() as int,
                );
            }
            store.complete(actor, idempotency_key, issue_id, saved);
            proof {
                let s1 = *store;
                assert(s1.idempotency@ == s_begun.idempotency@.update(
                    s0.idempotency@.len() as int,
                    s1.idempotency@[s0.idempotency@.len() as int],
                ));
                assert(s1.idempotency@.last() == s1.idempotency@[s0.idempotency@.len() as int]);
                assert(publish_committed(s0, s1, actor, idempotency_key@, *body, resp@));
                assert forall|i: int|
                    0 <= i < s1.idempotency@.len() && idem_key_matches(
                        #[trigger] s1.idempotency@[i],
                        actor,
                        idempotency_key@,
                    ) implies !(s1.idempotency@[i].state is InProgress) by {
                    if i < s0.idempotency@.len() {
                        assert(s1.idempotency@[i] == s0.idempotency@[i]);
                        assert(!has_idem(s0.idempotency@, actor, idempotency_key@));
                    }
                }
            }
            Ok(resp)
        },
    }
}

/// Law: idempotent replay. Once a publish committed under a key, a second
/// publish with the same key replays a response whose view — status, headers
/// in order, body bytes — equals the first one's, and leaves the store, in
/// particular the task table, exactly as the first publish left it: one set
/// of delivery tasks, not two.
pub proof fn lemma_idempotent_replay(
    s0: Store,
    s1: Store,
    s2: Store,
    actor: u64,
    key: Seq<char>,
    body: BodyData,
    r1: StoredResponseView,
    r2: StoredResponseView,
)
    requires
        s1.wf(),
        publish_committed(s0, s1, actor, key, body, r1),
        publish_replayed(s1, s2, actor, key, r2),
    ensures
        r2 == r1,
        s2 == s1,
        s2.tasks@ == s1.tasks@,
{
    let idx = s0.idempotency@.len() as int;
    assert(s1.idempotency@[idx] == s1.idempotency@.last());
    assert(idem_key_matches(s1.idempotency@[idx], actor, key));
    crate::idempotency::lemma_idem_index_unique(s1, actor, key, idx);
}

/// Law: concurrent duplicate submission. Two publish requests with the same
/// key serialize on the store's row lock; whichever commits first, the other
/// observes the completed record and replays. The two responses carry
/// identical status and body, and the delivery tasks are enqueued exactly
/// once: one task per deliverable subscriber, from the first request alone.
pub proof fn lemma_concurrent_duplicate(
    s0: Store,
    s1: Store,
    s2: Store,
    actor: u64,
    key: Seq<char>,
    body: BodyData,
    r1: StoredResponseView,
    r2: StoredResponseView,
)
    requires
        s1.wf(),
        publish_committed(s0, s1, actor, key, body, r1),
        publish_replayed(s1, s2, actor, key, r2),
    ensures
        r2.status == r1.status,
        r2.body == r1.body,
        s2.tasks@.len() == s0.tasks@.len() + delivery_rows(s0.subscribers@).len(),
{
    lemma_idempotent_replay(s0, s1, s2, actor, key, body, r1, r2);
}

/// Law: atomic enqueue. A rejected or failed publish leaves the store as it
/// was, so no delivery task of the attempted issue exists afterwards: a poll
/// for tasks of the issue id the attempt would have used finds none. Task
/// rows and the completed idempotency record commit together or not at all.
pub proof fn lemma_atomic_enqueue(
    s0: Store,
    s1: Store,
    r: Result<StoredResponse, PublishError>,
)
    requires
        s0.wf(),
        r is Err,
        s1 == s0,
    ensures
        forall|k: int| 0 <= k < s1.tasks@.len()
            ==> (#[trigger] s1.tasks@[k]).issue_id != s0.next_issue_id,
{
    assert forall|k: int| 0 <= k < s1.tasks@.len() implies (#[trigger] s1.tasks@[k]).issue_id
        != s0.next_issue_id by {
        assert(has_issue(s0.issues@, s0.tasks@[k].issue_id));
        let w = choose|w: int|
            0 <= w < s0.issues@.len() && (#[trigger] s0.issues@[w]).id == s0.tasks@[k].issue_id;
        assert(s0.issues@[w].id < s0.next_issue_id);
    }
}

/// Law: unconfirmed exclusion. An address that belongs to no confirmed
/// subscriber and had no delivery task before a publish has none after it:
/// the publish enqueues tasks only for confirmed subscribers.
pub proof fn lemma_unconfirmed_exclusion(
    s0: Store,
    s1: Store,
    actor: u64,
    key: Seq<char>,
    body: BodyData,
    r1: StoredResponseView,
    email: Seq<char>,
)
    requires
        s0.wf(),
        publish_committed(s0, s1, actor, key, body, r1),
        forall|i: int| 0 <= i < s0.subscribers@.len()
            ==> ((#[trigger] s0.subscribers@[i]).email@ == email
                ==> !(s0.subscribers@[i].status is Confirmed)),
        forall|k: int| 0 <= k < s0.tasks@.len() ==> (#[trigger] s0.tasks@[k]).recipient@ != email,
    ensures
        forall|k: int| 0 <= k < s1.tasks@.len() ==> (#[trigger] s1.tasks@[k]).recipient@ != email,
{
    let subs = s0.subscribers@;
    let pred = |s: Subscriber| s.status is Confirmed && is_valid_email(s.email@);
    let rows = delivery_rows(subs);
    assert forall|k: int| 0 <= k < s1.tasks@.len() implies (#[trigger] s1.tasks@[k]).recipient@
        != email by {
        if k < s0.tasks@.len() {
            assert(s1.tasks@[k] == s0.tasks@[k]);
        } else {
            let j = k - s0.tasks@.len();
            assert(s1.tasks@[s0.tasks@.len() + j].recipient@ == rows[j].email@);
            subs.lemma_filter_pred(pred, j);
            assert(rows.contains(rows[j]));
            subs.lemma_filter_contains_rev(pred, rows[j]);
            let w = choose|w: int| 0 <= w < subs.len() && subs[w] == rows[j];
            assert(subs[w].email@ == email ==> !(subs[w].status is Confirmed));
        }
    }
}

} // verus!
