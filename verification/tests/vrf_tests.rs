use zunnogame::vrf::{
    BlockchainSeed, FulfillmentAction, FulfillmentAttempt, FulfillmentEvent, LogEntry, VrfError,
    find_fulfillment, increment_word, is_sentinel_word,
};

fn word(last: &[u8]) -> [u8; 32] {
    let mut w = [0u8; 32];
    w[32 - last.len()..].copy_from_slice(last);
    w
}

#[test]
fn sentinel_is_the_all_zero_word() {
    assert!(is_sentinel_word(&[0u8; 32]));
    assert!(!is_sentinel_word(&word(&[1])));
    assert!(!is_sentinel_word(&[255u8; 32]));
}

#[test]
fn default_seed_is_unfulfilled() {
    let seed = BlockchainSeed::default();
    assert!(is_sentinel_word(&seed.value));
    assert_eq!(seed.request_id, 0);
}

#[test]
fn increment_carries_through_the_low_bytes() {
    assert_eq!(increment_word(&[0u8; 32]), word(&[1]));
    assert_eq!(increment_word(&word(&[1, 255])), word(&[2, 0]));
    assert_eq!(increment_word(&[255u8; 32]), [0u8; 32]);
    let mut almost = [0u8; 32];
    almost[31] = 41;
    assert_eq!(increment_word(&almost), word(&[42]));
}

#[test]
fn find_fulfillment_takes_the_first_real_answer() {
    let logs = vec![
        LogEntry { request_id: 4, random_word: word(&[9]) },
        LogEntry { request_id: 5, random_word: [0u8; 32] },
        LogEntry { request_id: 5, random_word: word(&[42]) },
        LogEntry { request_id: 5, random_word: word(&[43]) },
    ];
    assert_eq!(find_fulfillment(&logs, 5), Some(word(&[42])));
    assert_eq!(find_fulfillment(&logs, 4), Some(word(&[9])));
    assert_eq!(find_fulfillment(&logs, 6), None);
    assert_eq!(find_fulfillment(&Vec::new(), 5), None);
}

#[test]
fn missed_event_resolves_without_engaging_the_waiters() {
    // the fulfillment for request 5 is already on the log at block 100
    let (mut attempt, first) = FulfillmentAttempt::new(5, 100, 5);
    assert_eq!(first, FulfillmentAction::QueryHistory { request_id: 5, from_block: 100 });
    let seeded = vec![LogEntry { request_id: 5, random_word: word(&[42]) }];
    let action = attempt.on_event(FulfillmentEvent::HistoryLogs(seeded));
    // the answer comes back at once: no StartWaiters, no Poll
    assert_eq!(action, FulfillmentAction::Complete(Ok(word(&[42]))));
}

#[test]
fn empty_history_starts_both_waiters() {
    let (mut attempt, _) = FulfillmentAttempt::new(5, 100, 5);
    let action = attempt.on_event(FulfillmentEvent::HistoryLogs(Vec::new()));
    assert_eq!(action, FulfillmentAction::StartWaiters { request_id: 5, from_block: 100 });
}

#[test]
fn history_logs_for_other_requests_are_ignored() {
    let (mut attempt, _) = FulfillmentAttempt::new(5, 100, 5);
    let logs = vec![LogEntry { request_id: 7, random_word: word(&[1]) }];
    let action = attempt.on_event(FulfillmentEvent::HistoryLogs(logs));
    assert_eq!(action, FulfillmentAction::StartWaiters { request_id: 5, from_block: 100 });
}

#[test]
fn subscription_failure_leaves_the_poll_running() {
    let (mut attempt, _) = FulfillmentAttempt::new(5, 100, 3);
    attempt.on_event(FulfillmentEvent::HistoryLogs(Vec::new()));
    // the subscription errors: not fatal
    let action = attempt.on_event(FulfillmentEvent::SubscriptionFailed);
    assert_eq!(action, FulfillmentAction::KeepWaiting);
    // the poll still resolves the attempt with the correct value
    let action = attempt.on_event(FulfillmentEvent::PollValue([0u8; 32]));
    assert_eq!(action, FulfillmentAction::Poll { request_id: 5 });
    let action = attempt.on_event(FulfillmentEvent::PollValue(word(&[0xAB, 0xCD])));
    assert_eq!(action, FulfillmentAction::Complete(Ok(word(&[0xAB, 0xCD]))));
}

#[test]
fn sentinel_poll_answers_are_never_returned() {
    let (mut attempt, _) = FulfillmentAttempt::new(5, 100, 2);
    attempt.on_event(FulfillmentEvent::HistoryLogs(Vec::new()));
    let action = attempt.on_event(FulfillmentEvent::PollValue([0u8; 32]));
    assert_eq!(action, FulfillmentAction::Poll { request_id: 5 });
    // second sentinel answer exhausts the budget; the subscription is alive,
    // so the attempt waits rather than inventing a value
    let action = attempt.on_event(FulfillmentEvent::PollValue([0u8; 32]));
    assert_eq!(action, FulfillmentAction::KeepWaiting);
}

#[test]
fn exhausted_polls_with_dead_subscription_time_out() {
    let (mut attempt, _) = FulfillmentAttempt::new(5, 100, 2);
    attempt.on_event(FulfillmentEvent::HistoryLogs(Vec::new()));
    attempt.on_event(FulfillmentEvent::SubscriptionFailed);
    let action = attempt.on_event(FulfillmentEvent::PollFailed);
    assert_eq!(action, FulfillmentAction::Poll { request_id: 5 });
    let action = attempt.on_event(FulfillmentEvent::PollFailed);
    assert_eq!(
        action,
        FulfillmentAction::Complete(Err(VrfError::FulfillmentTimeout))
    );
}

#[test]
fn subscription_delivery_resolves_the_attempt() {
    let (mut attempt, _) = FulfillmentAttempt::new(5, 100, 5);
    attempt.on_event(FulfillmentEvent::HistoryLogs(Vec::new()));
    // a delivery for another request is ignored
    let action = attempt.on_event(FulfillmentEvent::SubscriptionLog(LogEntry {
        request_id: 6,
        random_word: word(&[7]),
    }));
    assert_eq!(action, FulfillmentAction::KeepWaiting);
    let action = attempt.on_event(FulfillmentEvent::SubscriptionLog(LogEntry {
        request_id: 5,
        random_word: word(&[7]),
    }));
    assert_eq!(action, FulfillmentAction::Complete(Ok(word(&[7]))));
    // a settled attempt only repeats its outcome
    let action = attempt.on_event(FulfillmentEvent::DeadlineExpired);
    assert_eq!(action, FulfillmentAction::Complete(Ok(word(&[7]))));
}

#[test]
fn deadline_ends_an_active_attempt() {
    let (mut attempt, _) = FulfillmentAttempt::new(5, 100, 5);
    attempt.on_event(FulfillmentEvent::HistoryLogs(Vec::new()));
    let action = attempt.on_event(FulfillmentEvent::DeadlineExpired);
    assert_eq!(
        action,
        FulfillmentAction::Complete(Err(VrfError::FulfillmentTimeout))
    );
    // and stays timed out
    let action = attempt.on_event(FulfillmentEvent::PollValue(word(&[1])));
    assert_eq!(
        action,
        FulfillmentAction::Complete(Err(VrfError::FulfillmentTimeout))
    );
}
