use chrono::Duration as ChronoDuration;

use bookmark_hub::bookmark::AiGenerationStatus;
use bookmark_hub::daemon::{
    ai_failure_outcome, ai_generation_backoff, next_attempt_at, should_retry, task_failure_update,
    task_success_update,
};
use bookmark_hub::model::{BookmarkTask, BookmarkTaskStatus};

fn task(retries: Option<i16>) -> BookmarkTask {
    BookmarkTask {
        task_id: 7,
        user_id: 9,
        url: "https://example.com/".into(),
        status: BookmarkTaskStatus::Pending,
        tags: None,
        summary: None,
        created_at: 0,
        updated_at: 0,
        next_delivery: 0,
        retries,
        fail_reason: None,
    }
}

#[test]
fn ai_generation_backoff_uses_step_schedule() {
    assert_eq!(ai_generation_backoff(1), ChronoDuration::minutes(5).num_seconds());
    assert_eq!(ai_generation_backoff(2), ChronoDuration::minutes(15).num_seconds());
    assert_eq!(ai_generation_backoff(3), ChronoDuration::hours(1).num_seconds());
    assert_eq!(ai_generation_backoff(4), ChronoDuration::hours(6).num_seconds());
    assert_eq!(ai_generation_backoff(5), ChronoDuration::hours(24).num_seconds());
    assert_eq!(ai_generation_backoff(8), ChronoDuration::hours(24).num_seconds());
}

#[test]
fn backoff_never_shrinks() {
    let mut previous = 0;
    for attempt in 1..=10 {
        let secs = ai_generation_backoff(attempt);
        assert!(secs >= previous);
        previous = secs;
    }
}

#[test]
fn failures_are_retried_until_the_fifth_attempt() {
    for previous in 0..4 {
        let outcome = ai_failure_outcome(previous);
        assert_eq!(outcome.attempts, previous + 1);
        assert_eq!(outcome.status, AiGenerationStatus::Pending);
        assert_eq!(outcome.retry_after_secs, ai_generation_backoff(previous + 1));
    }
    let last = ai_failure_outcome(4);
    assert_eq!(last.attempts, 5);
    assert_eq!(last.status, AiGenerationStatus::Fail);
    assert_eq!(last.retry_after_secs, 0);
}

#[test]
fn next_attempt_is_backoff_after_now() {
    let outcome = ai_failure_outcome(0);
    assert_eq!(next_attempt_at(1_000, &outcome), 1_000 + 300 * 1_000_000);
    let last = ai_failure_outcome(7);
    assert_eq!(next_attempt_at(1_000, &last), 1_000);
}

#[test]
fn tasks_retry_fewer_than_five_times() {
    assert!(should_retry(&task(None)));
    assert!(should_retry(&task(Some(4))));
    assert!(!should_retry(&task(Some(5))));
}

#[test]
fn failed_task_is_requeued_with_one_more_retry() {
    let update = task_failure_update(&task(Some(2)), "boom".into());
    assert_eq!(update.status, BookmarkTaskStatus::Pending);
    assert_eq!(update.retries, Some(3));
    assert_eq!(update.fail_reason, None);
    let update = task_failure_update(&task(None), "boom".into());
    assert_eq!(update.retries, Some(1));
}

#[test]
fn task_out_of_retries_fails_with_reason() {
    let update = task_failure_update(&task(Some(5)), "boom".into());
    assert_eq!(update.status, BookmarkTaskStatus::Fail);
    assert_eq!(update.retries, None);
    assert_eq!(update.fail_reason.as_deref(), Some("boom"));
}

#[test]
fn successful_task_is_done() {
    let update = task_success_update();
    assert_eq!(update.status, BookmarkTaskStatus::Done);
    assert_eq!(update.retries, None);
    assert_eq!(update.fail_reason, None);
}
