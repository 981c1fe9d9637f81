use newsletter::delivery::begin_delivery;
use newsletter::delivery::delete_task;
use newsletter::delivery::dequeue_task;
use newsletter::delivery::get_issue;
use newsletter::delivery::release_task;
use newsletter::delivery::worker_pause_secs;
use newsletter::delivery::DeliveryStep;
use newsletter::delivery::ExecutionOutput;
use newsletter::idempotency::get_saved_response;
use newsletter::idempotency::try_processing;
use newsletter::idempotency::IdempotencyError;
use newsletter::idempotency::NextAction;
use newsletter::idempotency_key::IdempotencyKey;
use newsletter::publish::newsletter_issue;
use newsletter::publish::publish_request;
use newsletter::publish::BodyData;
use newsletter::publish::PublishIssueError;
use newsletter::publish::SubscriberRow;
use newsletter::response::HttpResponseDescriptor;
use newsletter::retention::idempotency_worker;
use newsletter::retention::RETENTION_SECONDS;
use newsletter::store::Store;

fn body(title: &str, key: &str) -> BodyData {
    BodyData {
        title: title.to_string(),
        text: format!("{} as plain text", title),
        html: format!("<p>{}</p>", title),
        idempotency_key: key.to_string(),
    }
}

fn subscriber(email: &str, confirmed: bool) -> SubscriberRow {
    SubscriberRow { email: email.to_string(), confirmed }
}

fn assert_same_response(a: &HttpResponseDescriptor, b: &HttpResponseDescriptor) {
    assert_eq!(a.status, b.status);
    assert_eq!(a.headers.len(), b.headers.len());
    for (x, y) in a.headers.iter().zip(b.headers.iter()) {
        assert_eq!(x.name, y.name);
        assert_eq!(x.value, y.value);
    }
    assert_eq!(a.body, b.body);
}

#[test]
fn publishing_twice_is_idempotent() {
    // Issue "T", two confirmed subscribers, key "K1", user U: the first call
    // creates one issue and two tasks; the second call with the same key
    // creates nothing and returns a byte-identical response.
    let mut store = Store::new();
    let user = 7u128;
    let subs = vec![subscriber("a@example.com", true), subscriber("b@example.com", true)];
    let first = newsletter_issue(&mut store, user, body("T", "K1"), &subs, 100, 1).unwrap();
    assert_eq!(store.issue_count(), 1);
    assert_eq!(store.task_count(), 2);
    assert_eq!(store.record_count(), 1);

    let second = newsletter_issue(&mut store, user, body("T", "K1"), &subs, 200, 2).unwrap();
    assert_eq!(store.issue_count(), 1);
    assert_eq!(store.task_count(), 2);
    assert_eq!(store.record_count(), 1);
    assert_same_response(&first, &second);
    assert_eq!(first.status, 303);
}

#[test]
fn publish_response_is_the_expected_redirect() {
    let mut store = Store::new();
    let subs = vec![subscriber("a@example.com", true)];
    let resp = newsletter_issue(&mut store, 1, body("T", "K1"), &subs, 0, 9).unwrap();
    assert_eq!(resp.status, 303);
    assert_eq!(resp.headers.len(), 1);
    assert_eq!(resp.headers[0].name, "location");
    assert_eq!(resp.headers[0].value, b"/admin/newsletters".to_vec());
    assert!(resp.body.is_empty());
}

#[test]
fn fan_out_reaches_exactly_the_confirmed_subscribers() {
    let mut store = Store::new();
    let subs = vec![
        subscriber("a@example.com", true),
        subscriber("b@example.com", false),
        subscriber("c@example.com", true),
        subscriber("d@example.com", false),
        subscriber("e@example.com", true),
    ];
    newsletter_issue(&mut store, 1, body("Fan out", "K1"), &subs, 0, 5).unwrap();
    // three confirmed, two unconfirmed: exactly three tasks
    assert_eq!(store.task_count(), 3);
}

#[test]
fn malformed_idempotency_keys_are_rejected_before_any_work() {
    let mut store = Store::new();
    let subs = vec![subscriber("a@example.com", true)];
    let empty = newsletter_issue(&mut store, 1, body("T", ""), &subs, 0, 1);
    assert!(matches!(empty, Err(PublishIssueError::InvalidIdempotencyKey(_))));
    let long = newsletter_issue(&mut store, 1, body("T", &"k".repeat(51)), &subs, 0, 1);
    assert!(matches!(long, Err(PublishIssueError::InvalidIdempotencyKey(_))));
    assert_eq!(store.issue_count(), 0);
    assert_eq!(store.task_count(), 0);
    assert_eq!(store.record_count(), 0);
}

#[test]
fn a_retry_during_the_original_attempt_is_an_error() {
    let mut store = Store::new();
    let key = IdempotencyKey::parse("K1".to_string()).unwrap();
    // The first attempt has claimed the key but not finished.
    let next = try_processing(&mut store, &key, 1, 0).unwrap();
    assert!(matches!(next, NextAction::StartProcessing));
    // A concurrent retry sees the claim and no saved response.
    let retry = try_processing(&mut store, &key, 1, 0);
    assert!(matches!(retry, Err(IdempotencyError::MissingSavedResponse)));
    let subs = vec![subscriber("a@example.com", true)];
    let publish = newsletter_issue(&mut store, 1, body("T", "K1"), &subs, 0, 1);
    assert!(matches!(publish, Err(PublishIssueError::ConcurrentRequestInFlight)));
    assert_eq!(store.issue_count(), 0);
}

#[test]
fn a_taken_issue_identity_rolls_the_whole_transaction_back() {
    let mut store = Store::new();
    let subs = vec![subscriber("a@example.com", true)];
    newsletter_issue(&mut store, 1, body("first", "K1"), &subs, 0, 42).unwrap();
    let clash = newsletter_issue(&mut store, 1, body("second", "K2"), &subs, 0, 42);
    assert!(matches!(clash, Err(PublishIssueError::DuplicateIssueId)));
    // nothing of the second attempt is visible: not even its key claim
    assert_eq!(store.issue_count(), 1);
    assert_eq!(store.task_count(), 1);
    assert_eq!(store.record_count(), 1);
}

#[test]
fn publish_request_stamps_and_numbers_on_its_own() {
    let mut store = Store::new();
    let subs = vec![subscriber("a@example.com", true)];
    let resp = publish_request(&mut store, 1, body("T", "K1"), &subs).unwrap();
    assert_eq!(resp.status, 303);
    assert_eq!(store.issue_count(), 1);
    assert_eq!(store.task_count(), 1);
}

#[test]
fn a_claimed_task_is_invisible_to_other_workers() {
    let mut store = Store::new();
    let subs = vec![subscriber("a@example.com", true)];
    newsletter_issue(&mut store, 1, body("T", "K1"), &subs, 0, 1).unwrap();
    let first = dequeue_task(&mut store);
    assert_eq!(first, Some((1, "a@example.com".to_string())));
    // the row is locked: a second worker finds nothing
    assert_eq!(dequeue_task(&mut store), None);
    // the task is not lost: it is still queued, only claimed
    assert_eq!(store.task_count(), 1);
}

#[test]
fn a_crashed_worker_releases_its_claim() {
    // A worker claims the task and crashes before acknowledging: the
    // transaction rolls back and another worker can claim the same task.
    let mut store = Store::new();
    let subs = vec![subscriber("a@example.com", true)];
    newsletter_issue(&mut store, 1, body("T", "K1"), &subs, 0, 1).unwrap();
    let (issue_id, recipient) = dequeue_task(&mut store).unwrap();
    release_task(&mut store, issue_id, &recipient);
    let again = dequeue_task(&mut store);
    assert_eq!(again, Some((1, "a@example.com".to_string())));
}

#[test]
fn delivery_failures_do_not_block_other_recipients() {
    // Recipient A's stored address is invalid and recipient B's send fails:
    // both tasks are still acknowledged and removed, and B's step carried
    // the full content for an actual send invocation.
    let mut store = Store::new();
    let subs = vec![subscriber("not-an-email", true), subscriber("b@example.com", true)];
    newsletter_issue(&mut store, 1, body("T", "K1"), &subs, 0, 1).unwrap();
    assert_eq!(store.task_count(), 2);

    match begin_delivery(&mut store) {
        DeliveryStep::InvalidRecipient { issue_id, recipient } => {
            assert_eq!(recipient, "not-an-email");
            // permanent failure: logged, acknowledged without sending
            delete_task(&mut store, issue_id, &recipient);
        },
        other => panic!("expected the invalid recipient first, got {:?}", other),
    }
    assert_eq!(store.task_count(), 1);

    match begin_delivery(&mut store) {
        DeliveryStep::Send { issue_id, recipient, title, text, html } => {
            assert_eq!(recipient.as_str(), "b@example.com");
            assert_eq!(title, "T");
            assert_eq!(text, "T as plain text");
            assert_eq!(html, "<p>T</p>");
            // the transport reports a failure here: the task is still
            // acknowledged, delivery is attempted at most once
            let address = recipient.as_str().to_string();
            delete_task(&mut store, issue_id, &address);
        },
        other => panic!("expected a send step, got {:?}", other),
    }
    assert_eq!(store.task_count(), 0);
    assert!(matches!(begin_delivery(&mut store), DeliveryStep::EmptyQueue));
}

#[test]
fn resolved_issues_carry_their_content() {
    let mut store = Store::new();
    let subs = vec![subscriber("a@example.com", true)];
    newsletter_issue(&mut store, 1, body("Contents", "K1"), &subs, 77, 6).unwrap();
    let issue = get_issue(&store, 6).unwrap();
    assert_eq!(issue.title, "Contents");
    assert_eq!(issue.text, "Contents as plain text");
    assert_eq!(issue.html, "<p>Contents</p>");
    assert_eq!(issue.published_at, 77);
    assert!(get_issue(&store, 999).is_none());
}

#[test]
fn the_sweep_deletes_old_records_and_keeps_young_ones() {
    let mut store = Store::new();
    let old_key = IdempotencyKey::parse("OLD".to_string()).unwrap();
    let young_key = IdempotencyKey::parse("YOUNG".to_string()).unwrap();
    let now = 100 * RETENTION_SECONDS;
    // one record created exactly a window ago, one created an hour ago
    try_processing(&mut store, &old_key, 1, now - RETENTION_SECONDS).unwrap();
    try_processing(&mut store, &young_key, 1, now - 3600).unwrap();
    assert_eq!(store.record_count(), 2);

    idempotency_worker(&mut store, now);
    assert_eq!(store.record_count(), 1);
    // the old key is free again; the young claim is still in flight
    assert!(matches!(
        try_processing(&mut store, &old_key, 1, now),
        Ok(NextAction::StartProcessing)
    ));
    assert!(matches!(
        try_processing(&mut store, &young_key, 1, now),
        Err(IdempotencyError::MissingSavedResponse)
    ));
}

#[test]
fn the_sweep_leaves_issues_and_tasks_alone() {
    let mut store = Store::new();
    let subs = vec![subscriber("a@example.com", true)];
    newsletter_issue(&mut store, 1, body("T", "K1"), &subs, 0, 1).unwrap();
    idempotency_worker(&mut store, 10 * RETENTION_SECONDS);
    assert_eq!(store.record_count(), 0);
    assert_eq!(store.issue_count(), 1);
    assert_eq!(store.task_count(), 1);
}

#[test]
fn worker_pauses_follow_the_iteration_outcome() {
    assert_eq!(worker_pause_secs(Some(&ExecutionOutput::EmptyQueue)), 10);
    assert_eq!(worker_pause_secs(Some(&ExecutionOutput::TaskCompleted)), 0);
    assert_eq!(worker_pause_secs(None), 1);
}

#[test]
fn concurrent_submissions_share_one_outcome() {
    // Two requests race on the same key: whichever claims the key first
    // publishes; the other performs no work and returns the same response,
    // even with a different body.
    let mut store = Store::new();
    let subs = vec![subscriber("a@example.com", true)];
    let winner = newsletter_issue(&mut store, 3, body("winner", "K9"), &subs, 0, 1).unwrap();
    let loser = newsletter_issue(&mut store, 3, body("loser", "K9"), &subs, 5, 2).unwrap();
    assert_same_response(&winner, &loser);
    assert_eq!(store.issue_count(), 1);
    assert_eq!(store.task_count(), 1);
    let issue = get_issue(&store, 1).unwrap();
    assert_eq!(issue.title, "winner");
}

#[test]
fn saved_responses_replay_after_completion_only() {
    let mut store = Store::new();
    let key = IdempotencyKey::parse("K1".to_string()).unwrap();
    assert!(get_saved_response(&store, &key, 1).is_none());
    let subs = vec![subscriber("a@example.com", true)];
    let resp = newsletter_issue(&mut store, 1, body("T", "K1"), &subs, 0, 1).unwrap();
    let saved = get_saved_response(&store, &key, 1).unwrap();
    assert_same_response(&resp, &saved);
    // a different user's identical key has no record
    assert!(get_saved_response(&store, &key, 2).is_none());
}
