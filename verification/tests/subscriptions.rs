//! Subscriber-side behaviour: address validation and confirmation.

use newsletter_outbox::{
    confirm, get_subscriber_id_from_token, is_valid_subscriber_email, ConfirmError, Parameters,
    Store, SubscriberStatus,
};

#[test]
fn subscriber_email_validation_accepts_real_addresses() {
    assert!(is_valid_subscriber_email("ursula_le_guin@gmail.com"));
    assert!(is_valid_subscriber_email("a@b"));
    assert!(is_valid_subscriber_email("first.last@sub.example.org"));
}

#[test]
fn subscriber_email_validation_rejects_malformed_addresses() {
    assert!(!is_valid_subscriber_email(""), "empty email");
    assert!(!is_valid_subscriber_email("definitely-not-an-email"), "invalid email");
    assert!(!is_valid_subscriber_email("@example.com"), "empty local part");
    assert!(!is_valid_subscriber_email("ursula@"), "empty domain part");
    assert!(!is_valid_subscriber_email("ursula le guin@gmail.com"), "whitespace");
    assert!(!is_valid_subscriber_email(" "), "whitespace only");
}

#[test]
fn a_known_token_confirms_its_subscriber() {
    let mut store = Store::new();
    let id = store.insert_subscriber(
        "ursula_le_guin@gmail.com".to_string(),
        "secret-token".to_string(),
    );
    assert!(matches!(store.subscribers[0].status, SubscriberStatus::PendingConfirmation));
    let looked_up = get_subscriber_id_from_token(&store, &"secret-token".to_string());
    assert_eq!(looked_up.ok(), Some(id));
    let outcome = confirm(
        &mut store,
        &Parameters { subscription_token: "secret-token".to_string() },
    );
    assert!(outcome.is_ok());
    assert!(matches!(store.subscribers[0].status, SubscriberStatus::Confirmed));
}

#[test]
fn an_unknown_token_is_rejected_and_changes_nothing() {
    let mut store = Store::new();
    store.insert_subscriber("ursula_le_guin@gmail.com".to_string(), "secret-token".to_string());
    let outcome = confirm(
        &mut store,
        &Parameters { subscription_token: "wrong-token".to_string() },
    );
    let err = outcome.err().expect("an unknown token must be rejected");
    assert!(matches!(err, ConfirmError::TokenDoesNotExist));
    assert_eq!(err.status_code(), 401);
    assert!(matches!(store.subscribers[0].status, SubscriberStatus::PendingConfirmation));
}

#[test]
fn confirming_twice_is_harmless() {
    let mut store = Store::new();
    store.insert_subscriber("ursula_le_guin@gmail.com".to_string(), "secret-token".to_string());
    let params = Parameters { subscription_token: "secret-token".to_string() };
    confirm(&mut store, &params).expect("first confirmation");
    confirm(&mut store, &params).expect("second confirmation");
    assert!(matches!(store.subscribers[0].status, SubscriberStatus::Confirmed));
    assert_eq!(store.subscribers.len(), 1);
}
