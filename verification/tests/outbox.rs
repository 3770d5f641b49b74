//! The outbox enqueuer: the delivery-list snapshot and task insertion.

use newsletter_outbox::{
    confirm, enqueue_delivery_tasks, get_confirmed_subscribers, publish_newsletter, BodyData,
    Parameters, Store,
};

fn subscriber(store: &mut Store, email: &str, token: &str, confirmed: bool) {
    store.insert_subscriber(email.to_string(), token.to_string());
    if confirmed {
        confirm(store, &Parameters { subscription_token: token.to_string() })
            .expect("token exists");
    }
}

#[test]
fn the_delivery_list_is_the_confirmed_valid_snapshot_in_order() {
    let mut store = Store::new();
    subscriber(&mut store, "first@example.com", "t1", true);
    subscriber(&mut store, "not-an-address", "t2", true);
    subscriber(&mut store, "pending@example.com", "t3", false);
    subscriber(&mut store, "second@example.com", "t4", true);
    let list = get_confirmed_subscribers(&store);
    assert_eq!(list, vec!["first@example.com".to_string(), "second@example.com".to_string()]);
}

#[test]
fn enqueueing_skips_invalid_addresses_and_counts_the_rest() {
    let mut store = Store::new();
    subscriber(&mut store, "first@example.com", "t1", true);
    let body = BodyData {
        title: "Newsletter title".to_string(),
        html_content: "<p>Newsletter body as HTML</p>".to_string(),
        text_content: "Newsletter body as plain text".to_string(),
    };
    let key = "idempotency_key-1".to_string();
    publish_newsletter(&mut store, Some(1), &body, &key).expect("accepted");
    let issue_id = store.issues[0].id;
    let tasks_before = store.tasks.len();

    let recipients = vec![
        "extra_one@example.com".to_string(),
        "malformed address".to_string(),
        "extra_two@example.com".to_string(),
    ];
    let count = enqueue_delivery_tasks(&mut store, issue_id, &recipients);
    assert_eq!(count, 2, "the malformed address is skipped, not fatal");
    assert_eq!(store.tasks.len(), tasks_before + 2);
    let appended: Vec<&str> =
        store.tasks[tasks_before..].iter().map(|t| t.recipient.as_str()).collect();
    assert_eq!(appended, vec!["extra_one@example.com", "extra_two@example.com"]);
    for t in &store.tasks[tasks_before..] {
        assert_eq!(t.issue_id, issue_id);
        assert_eq!(t.retry_count, 0);
        assert_eq!(t.next_attempt_at, 0);
    }
}
