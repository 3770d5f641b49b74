//! Publish-path behaviour: validation, idempotent replay, duplicate
//! submission, and which subscribers receive delivery tasks.

use newsletter_outbox::{
    confirm, publish_newsletter, BodyData, DispatchOutcome, Parameters, PublishError, Store,
    StoredResponse, TaskResolution,
};

fn newsletter_body() -> BodyData {
    BodyData {
        title: "Newsletter title".to_string(),
        html_content: "<p>Newsletter body as HTML</p>".to_string(),
        text_content: "Newsletter body as plain text".to_string(),
    }
}

fn responses_equal(a: &StoredResponse, b: &StoredResponse) -> bool {
    if a.status != b.status || a.body != b.body || a.headers.len() != b.headers.len() {
        return false;
    }
    for (x, y) in a.headers.iter().zip(b.headers.iter()) {
        if x.name != y.name || x.value != y.value {
            return false;
        }
    }
    true
}

fn store_with_subscribers(confirmed: &[&str], pending: &[&str]) -> Store {
    let mut store = Store::new();
    let mut token_no = 0u32;
    for email in confirmed {
        let token = format!("token-{}", token_no);
        token_no += 1;
        store.insert_subscriber(email.to_string(), token.clone());
        let ok = confirm(&mut store, &Parameters { subscription_token: token });
        assert!(ok.is_ok());
    }
    for email in pending {
        let token = format!("token-{}", token_no);
        token_no += 1;
        store.insert_subscriber(email.to_string(), token);
    }
    store
}

#[test]
fn newsletters_returns_400_for_invalid_data() {
    let cases = [
        (
            BodyData {
                title: String::new(),
                html_content: "<p>Newsletter body as HTML</p>".to_string(),
                text_content: "Newsletter body as plain text".to_string(),
            },
            "missing title",
        ),
        (
            BodyData {
                title: "Newsletter!".to_string(),
                html_content: String::new(),
                text_content: String::new(),
            },
            "missing content",
        ),
    ];
    for (body, description) in cases {
        let mut store = store_with_subscribers(&["ursula_le_guin@gmail.com"], &[]);
        let key = "a-key".to_string();
        let outcome = publish_newsletter(&mut store, Some(1), &body, &key);
        let err = match outcome {
            Err(e) => e,
            Ok(_) => panic!(
                "The API did not fail with 400 Bad Request when the payload was {}.",
                description
            ),
        };
        assert_eq!(err.status_code(), 400);
        assert!(matches!(err, PublishError::ValidationError));
        assert_eq!(store.tasks.len(), 0, "a rejected publish must enqueue nothing");
    }
}

#[test]
fn publishing_requires_authentication() {
    let mut store = store_with_subscribers(&["ursula_le_guin@gmail.com"], &[]);
    let key = "a-key".to_string();
    let outcome = publish_newsletter(&mut store, None, &newsletter_body(), &key);
    let err = outcome.err().expect("an unauthenticated publish must be rejected");
    assert_eq!(err.status_code(), 401);
    assert!(matches!(err, PublishError::AuthError));
    assert_eq!(store.tasks.len(), 0);
    assert_eq!(store.idempotency.len(), 0);
}

#[test]
fn an_empty_idempotency_key_is_rejected() {
    let mut store = store_with_subscribers(&["ursula_le_guin@gmail.com"], &[]);
    let key = String::new();
    let outcome = publish_newsletter(&mut store, Some(1), &newsletter_body(), &key);
    let err = outcome.err().expect("an empty idempotency key must be rejected");
    assert_eq!(err.status_code(), 400);
    assert_eq!(store.idempotency.len(), 0);
}

#[test]
fn newsletters_are_delivered_to_confirmed_subscribers() {
    let mut store = store_with_subscribers(&["ursula_le_guin@gmail.com"], &[]);
    let key = "idempotency_key-1".to_string();
    let response = publish_newsletter(&mut store, Some(1), &newsletter_body(), &key)
        .expect("a valid publish must be accepted");
    assert_eq!(response.status, 303);
    assert_eq!(response.headers.len(), 1);
    assert_eq!(response.headers[0].name, "Location");
    assert_eq!(response.headers[0].value, "/admin/newsletters");
    assert_eq!(store.tasks.len(), 1);
    assert_eq!(store.tasks[0].recipient, "ursula_le_guin@gmail.com");
    let issue = &store.issues[0];
    assert_eq!(issue.title, "Newsletter title");
    assert_eq!(issue.html_content, "<p>Newsletter body as HTML</p>");
    assert_eq!(issue.text_content, "Newsletter body as plain text");
}

#[test]
fn newsletters_are_not_delivered_to_unconfirmed_subscribers() {
    let mut store = store_with_subscribers(&[], &["ursula_le_guin@gmail.com"]);
    let key = "idempotency_key-1".to_string();
    let response = publish_newsletter(&mut store, Some(1), &newsletter_body(), &key)
        .expect("a valid publish must be accepted");
    assert_eq!(response.status, 303);
    assert_eq!(store.tasks.len(), 0, "an unconfirmed subscriber gets zero delivery attempts");
}

#[test]
fn malformed_stored_addresses_are_skipped_not_fatal() {
    let mut store = store_with_subscribers(
        &["not-an-email-address", "ursula_le_guin@gmail.com"],
        &[],
    );
    let key = "idempotency_key-1".to_string();
    publish_newsletter(&mut store, Some(1), &newsletter_body(), &key)
        .expect("a bad address must not block the rest of the batch");
    assert_eq!(store.tasks.len(), 1);
    assert_eq!(store.tasks[0].recipient, "ursula_le_guin@gmail.com");
}

#[test]
fn newsletter_creation_is_idempotent() {
    let mut store = store_with_subscribers(&["ursula_le_guin@gmail.com"], &[]);
    let key = "idempotency_key-1".to_string();
    let first = publish_newsletter(&mut store, Some(1), &newsletter_body(), &key)
        .expect("the first publish must be accepted");
    let tasks_after_first: Vec<u64> = store.tasks.iter().map(|t| t.id).collect();
    let second = publish_newsletter(&mut store, Some(1), &newsletter_body(), &key)
        .expect("the replayed publish must be accepted");
    assert!(
        responses_equal(&first, &second),
        "a replay must return the saved response byte for byte"
    );
    let tasks_after_second: Vec<u64> = store.tasks.iter().map(|t| t.id).collect();
    assert_eq!(tasks_after_first, tasks_after_second, "exactly one set of tasks is enqueued");
    assert_eq!(store.issues.len(), 1);
}

#[test]
fn concurrent_form_submission_is_handled_gracefully() {
    // Two requests with the same key race; the store's row lock serializes
    // them, so the loser observes the winner's completed record and replays.
    let mut store = store_with_subscribers(&["ursula_le_guin@gmail.com"], &[]);
    let key = "idempotency_key-1".to_string();
    let winner = publish_newsletter(&mut store, Some(1), &newsletter_body(), &key)
        .expect("the winning request must be accepted");
    let loser = publish_newsletter(&mut store, Some(1), &newsletter_body(), &key)
        .expect("the losing request must be accepted");
    assert_eq!(winner.status, loser.status);
    assert_eq!(winner.body, loser.body);
    assert_eq!(store.tasks.len(), 1, "only one request runs the enqueue logic");
}

#[test]
fn different_actors_with_the_same_token_are_independent() {
    let mut store = store_with_subscribers(&["ursula_le_guin@gmail.com"], &[]);
    let key = "idempotency_key-1".to_string();
    publish_newsletter(&mut store, Some(1), &newsletter_body(), &key).expect("accepted");
    publish_newsletter(&mut store, Some(2), &newsletter_body(), &key).expect("accepted");
    assert_eq!(store.issues.len(), 2, "the key is scoped per actor");
    assert_eq!(store.tasks.len(), 2);
}

#[test]
fn two_confirmed_recipients_deliver_and_replay() {
    // Publish "Newsletter title" to two confirmed recipients; the channel
    // accepts both; re-publishing with the same token replays.
    let mut store = store_with_subscribers(
        &["ursula_le_guin@gmail.com", "arthur_c_clarke@gmail.com"],
        &[],
    );
    let key = "idempotency_key-1".to_string();
    let first = publish_newsletter(&mut store, Some(1), &newsletter_body(), &key)
        .expect("the publish must be accepted");
    assert_eq!(store.tasks.len(), 2);
    let ids: Vec<u64> = store.tasks.iter().map(|t| t.id).collect();
    for id in ids {
        let res = newsletter_outbox::resolve_task(
            &mut store,
            id,
            DispatchOutcome::Delivered,
            0,
            3,
        );
        assert_eq!(res, TaskResolution::Delivered);
    }
    assert_eq!(store.tasks.len(), 0, "both tasks are deleted after delivery");
    assert_eq!(store.dead_letters.len(), 0, "zero dead letters");
    let replay = publish_newsletter(&mut store, Some(1), &newsletter_body(), &key)
        .expect("the replayed publish must be accepted");
    assert!(responses_equal(&first, &replay), "the response matches the first");
    assert_eq!(store.tasks.len(), 0, "no new tasks are created on replay");
    assert_eq!(store.issues.len(), 1);
}

#[test]
fn error_responses_carry_the_right_status_and_headers() {
    let auth = PublishError::AuthError.error_response();
    assert_eq!(auth.status, 401);
    assert_eq!(auth.headers.len(), 1);
    assert_eq!(auth.headers[0].name, "WWW-Authenticate");
    assert_eq!(auth.headers[0].value, "Basic realm=\"publish\"");
    assert!(auth.body.is_empty());
    let validation = PublishError::ValidationError.error_response();
    assert_eq!(validation.status, 400);
    assert!(validation.headers.is_empty());
    assert!(validation.body.is_empty());
}
