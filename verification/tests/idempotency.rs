//! The idempotency store's own contract: proceed once, complete, replay.

use newsletter_outbox::{
    build_accepted_response, publish_newsletter, BodyData, Decision, Store, StoredResponse,
};

fn body() -> BodyData {
    BodyData {
        title: "Newsletter title".to_string(),
        html_content: "<p>Newsletter body as HTML</p>".to_string(),
        text_content: "Newsletter body as plain text".to_string(),
    }
}

#[test]
fn an_unseen_key_proceeds_and_a_completed_key_replays() {
    let mut store = Store::new();
    // A first publish stores an issue the later completion can refer to.
    let first_key = "idempotency_key-1".to_string();
    publish_newsletter(&mut store, Some(7), &body(), &first_key).expect("accepted");
    let issue_id = store.issues[0].id;

    let key = "idempotency_key-2".to_string();
    match store.begin_or_replay(7, &key) {
        Decision::Proceed => {},
        Decision::Replay(_) => panic!("an unseen key must proceed"),
    }
    assert_eq!(store.idempotency.len(), 2, "proceeding writes the in-progress row");

    let saved = StoredResponse { status: 303, headers: Vec::new(), body: vec![42u8] };
    store.complete(7, &key, issue_id, saved);

    match store.begin_or_replay(7, &key) {
        Decision::Replay(replayed) => {
            assert_eq!(replayed.status, 303);
            assert_eq!(replayed.body, vec![42u8], "the saved bytes come back exactly");
            assert!(replayed.headers.is_empty());
        },
        Decision::Proceed => panic!("a completed key must replay"),
    }
    assert_eq!(store.idempotency.len(), 2, "replaying writes nothing");
}

#[test]
fn keys_are_scoped_to_the_actor() {
    let mut store = Store::new();
    let key = "idempotency_key-1".to_string();
    publish_newsletter(&mut store, Some(1), &body(), &key).expect("accepted");
    match store.begin_or_replay(2, &key) {
        Decision::Proceed => {},
        Decision::Replay(_) => panic!("another actor's key must not replay"),
    }
}

#[test]
fn the_accepted_response_is_the_redirect_to_the_form() {
    let r = build_accepted_response();
    assert_eq!(r.status, 303);
    assert_eq!(r.headers.len(), 1);
    assert_eq!(r.headers[0].name, "Location");
    assert_eq!(r.headers[0].value, "/admin/newsletters");
    assert!(r.body.is_empty());
}
