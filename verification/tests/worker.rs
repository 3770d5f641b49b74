//! Delivery-worker behaviour: claiming due tasks, retry with monotone
//! backoff, transient recovery and terminal exhaustion.

use newsletter_outbox::{
    compute_next_attempt, confirm, next_action, publish_newsletter, resolve_task, BodyData,
    DeadLetterReason, DispatchOutcome, Parameters, Store, TaskResolution, WorkerAction,
    RETRY_BACKOFF_STEP,
};

fn store_with_one_task(email: &str) -> Store {
    let mut store = Store::new();
    let token = "token-0".to_string();
    store.insert_subscriber(email.to_string(), token.clone());
    confirm(&mut store, &Parameters { subscription_token: token }).expect("token exists");
    let body = BodyData {
        title: "Newsletter title".to_string(),
        html_content: "<p>Newsletter body as HTML</p>".to_string(),
        text_content: "Newsletter body as plain text".to_string(),
    };
    let key = "idempotency_key-1".to_string();
    publish_newsletter(&mut store, Some(1), &body, &key).expect("accepted");
    assert_eq!(store.tasks.len(), 1);
    store
}

#[test]
fn transient_errors_do_not_cause_duplicate_deliveries_on_retries() {
    // Delivery retry: the first dispatch fails transiently, the retried one
    // succeeds; the recipient is delivered to exactly once.
    let mut store = store_with_one_task("ursula_le_guin@gmail.com");
    let task_id = store.tasks[0].id;
    let res = resolve_task(&mut store, task_id, DispatchOutcome::TransientFailure, 100, 3);
    assert_eq!(res, TaskResolution::Rescheduled);
    assert_eq!(store.tasks.len(), 1, "the task stays queued for retry");
    assert_eq!(store.tasks[0].id, task_id, "retrying never duplicates the task");
    assert_eq!(store.tasks[0].retry_count, 1);
    let eligible_at = store.tasks[0].next_attempt_at;
    assert!(eligible_at > 100, "the retry waits for the backoff");
    match next_action(&store, 100) {
        WorkerAction::Idle => {},
        WorkerAction::Dispatch { .. } => panic!("a rescheduled task must not be due at once"),
    }
    let res = resolve_task(&mut store, task_id, DispatchOutcome::Delivered, eligible_at, 3);
    assert_eq!(res, TaskResolution::Delivered);
    assert_eq!(store.tasks.len(), 0, "a delivered task is removed");
    assert_eq!(store.dead_letters.len(), 0);
}

#[test]
fn retry_exhaustion_writes_exactly_one_dead_letter() {
    let max_retries = 2;
    let mut store = store_with_one_task("ursula_le_guin@gmail.com");
    let task_id = store.tasks[0].id;
    let mut now = 0;
    for expected_retry in 1..=max_retries {
        let res = resolve_task(
            &mut store,
            task_id,
            DispatchOutcome::TransientFailure,
            now,
            max_retries,
        );
        assert_eq!(res, TaskResolution::Rescheduled);
        assert_eq!(store.tasks[0].retry_count, expected_retry);
        now = store.tasks[0].next_attempt_at;
    }
    let res = resolve_task(&mut store, task_id, DispatchOutcome::TransientFailure, now, max_retries);
    assert_eq!(res, TaskResolution::DeadLettered);
    assert_eq!(store.tasks.len(), 0, "an exhausted task leaves the active table");
    assert_eq!(store.dead_letters.len(), 1, "exactly one dead-letter record");
    let dead = &store.dead_letters[0];
    assert_eq!(dead.task.id, task_id);
    assert_eq!(dead.task.recipient, "ursula_le_guin@gmail.com");
    assert!(matches!(dead.reason, DeadLetterReason::RetriesExhausted));
}

#[test]
fn a_rejected_recipient_is_dead_lettered_at_once() {
    let mut store = store_with_one_task("ursula_le_guin@gmail.com");
    let task_id = store.tasks[0].id;
    let res = resolve_task(&mut store, task_id, DispatchOutcome::TerminalFailure, 7, 3);
    assert_eq!(res, TaskResolution::DeadLettered);
    assert_eq!(store.tasks.len(), 0);
    assert_eq!(store.dead_letters.len(), 1);
    assert!(matches!(store.dead_letters[0].reason, DeadLetterReason::RejectedByChannel));
    assert_eq!(store.dead_letters[0].failed_at, 7);
}

#[test]
fn backoff_is_monotone_in_the_retry_count() {
    assert_eq!(compute_next_attempt(100, 0), 100 + RETRY_BACKOFF_STEP);
    assert_eq!(compute_next_attempt(100, 1), 100 + 2 * RETRY_BACKOFF_STEP);
    assert_eq!(compute_next_attempt(100, 2), 100 + 3 * RETRY_BACKOFF_STEP);
    let mut last = 0;
    for retry in 0..10 {
        let t = compute_next_attempt(1000, retry);
        assert!(t >= last, "the backoff never shrinks as retries accumulate");
        assert!(t >= 1000, "a task never becomes eligible before the failure time");
        last = t;
    }
    assert_eq!(compute_next_attempt(u64::MAX - 1, 5), u64::MAX, "the time saturates");
}

#[test]
fn the_worker_is_idle_until_a_task_is_due() {
    let store = Store::new();
    assert!(matches!(next_action(&store, 0), WorkerAction::Idle));
    let mut store = store_with_one_task("ursula_le_guin@gmail.com");
    match next_action(&store, 0) {
        WorkerAction::Dispatch { task_id, recipient, title, html_content, text_content } => {
            assert_eq!(task_id, store.tasks[0].id);
            assert_eq!(recipient, "ursula_le_guin@gmail.com");
            assert_eq!(title, "Newsletter title");
            assert_eq!(html_content, "<p>Newsletter body as HTML</p>");
            assert_eq!(text_content, "Newsletter body as plain text");
        },
        WorkerAction::Idle => panic!("a freshly enqueued task is due at once"),
    }
    let task_id = store.tasks[0].id;
    resolve_task(&mut store, task_id, DispatchOutcome::TransientFailure, 50, 3);
    assert!(
        matches!(next_action(&store, 50), WorkerAction::Idle),
        "a rescheduled task is not due before its backoff has passed"
    );
    let due_at = store.tasks[0].next_attempt_at;
    assert!(matches!(next_action(&store, due_at), WorkerAction::Dispatch { .. }));
}
