//! Scheduling decisions of the background workers: the retry budgets, the
//! backoff schedule of AI generation, and what a failed run is written back as.
use crate::bookmark::AiGenerationStatus;
use crate::model::{BookmarkTask, BookmarkTaskStatus};
use vstd::prelude::*;

verus! {

/// Seconds a worker sleeps when nothing wakes it earlier.
pub const DAEMON_IDLE_SLEEP_SECS: u64 = 300;

/// Attempts after which an AI generation is given up.
pub const AI_GENERATION_MAX_RETRIES: i16 = 5;

/// Retries after which an ingestion task is given up.
pub const TASK_MAX_RETRIES: i16 = 5;

/// The wait, in seconds, before the given attempt of an AI generation:
/// 5 minutes, 15 minutes, 1 hour, 6 hours, then a day.
pub open spec fn backoff_secs(attempt: int) -> int {
    if attempt == 1 {
        300
    } else if attempt == 2 {
        900
    } else if attempt == 3 {
        3600
    } else if attempt == 4 {
        21600
    } else {
        86400
    }
}

/// The step schedule of AI generation retries, in seconds.
pub fn ai_generation_backoff(attempt: i16) -> (secs: i64)
    ensures
        secs == backoff_secs(attempt as int),
{
    match attempt {
        1 => 300,
        2 => 900,
        3 => 3600,
        4 => 21600,
        _ => 86400,
    }
}

/// What a failed AI generation is written back as.
#[derive(Debug, Clone, Copy, PartialEq, Eq, Structural)]
pub struct AiFailureOutcome {
    /// `Fail` once the attempts are used up, `Pending` before.
    pub status: AiGenerationStatus,
    /// The attempts made so far, this one included.
    pub attempts: i16,
    /// Seconds until the next attempt; none after the last one.
    pub retry_after_secs: i64,
}

/// Whether the given count of attempts uses up the budget.
pub open spec fn is_terminal_attempt(attempts: int) -> bool {
    attempts >= AI_GENERATION_MAX_RETRIES
}

/// A failed AI generation: one more attempt is counted; once there are five
/// the generation fails for good, before that it is retried after the
/// backoff of that attempt.
pub fn ai_failure_outcome(previous_attempts: i16) -> (o: AiFailureOutcome)
    requires
        previous_attempts < i16::MAX,
    ensures
        o.attempts == previous_attempts + 1,
        o.status == (if is_terminal_attempt(o.attempts as int) {
            AiGenerationStatus::Fail
        } else {
            AiGenerationStatus::Pending
        }),
        o.retry_after_secs == (if is_terminal_attempt(o.attempts as int) {
            0
        } else {
            backoff_secs(o.attempts as int)
        }),
{
    let attempts = previous_attempts + 1;
    if attempts >= AI_GENERATION_MAX_RETRIES {
        AiFailureOutcome { status: AiGenerationStatus::Fail, attempts, retry_after_secs: 0 }
    } else {
        AiFailureOutcome {
            status: AiGenerationStatus::Pending,
            attempts,
            retry_after_secs: ai_generation_backoff(attempts),
        }
    }
}

/// Microseconds in a second.
pub const MICROS_PER_SEC: i64 = 1_000_000;

/// The instant (microseconds since the epoch) of the next attempt after a
/// failure at `now`.
pub fn next_attempt_at(now: i64, outcome: &AiFailureOutcome) -> (t: i64)
    requires
        0 <= outcome.retry_after_secs <= 86400,
        now + outcome.retry_after_secs * MICROS_PER_SEC <= i64::MAX,
    ensures
        t == now + outcome.retry_after_secs * MICROS_PER_SEC,
{
    now + outcome.retry_after_secs * MICROS_PER_SEC
}

/// Whether a failed ingestion task has retries left.
pub open spec fn retries_left(task: BookmarkTask) -> bool {
    (match task.retries {
        Some(r) => r as int,
        None => 0,
    }) < TASK_MAX_RETRIES
}

/// A task is retried while it has been retried fewer than five times.
pub fn should_retry(task: &BookmarkTask) -> (b: bool)
    ensures
        b == retries_left(*task),
{
    let retries: i16 = match task.retries {
        Some(r) => r,
        None => 0,
    };
    retries < TASK_MAX_RETRIES
}

/// What an ingestion task is written back as after a run.
#[derive(Debug, Clone)]
pub struct TaskUpdate {
    pub status: BookmarkTaskStatus,
    /// The new retry count, where it changes.
    pub retries: Option<i16>,
    /// The reason kept with a task that failed for good.
    pub fail_reason: Option<String>,
}

/// A task that ran to the end is done.
pub fn task_success_update() -> (u: TaskUpdate)
    ensures
        u.status == BookmarkTaskStatus::Done,
        u.retries is None,
        u.fail_reason is None,
{
    TaskUpdate { status: BookmarkTaskStatus::Done, retries: None, fail_reason: None }
}

/// A failed task is queued again with one more retry while it has retries
/// left; after that it fails for good, keeping the error as its reason.
pub fn task_failure_update(task: &BookmarkTask, error: String) -> (u: TaskUpdate)
    ensures
        retries_left(*task) ==> u.status == BookmarkTaskStatus::Pending && u.retries == Some(
            (match task.retries {
                Some(r) => r as int,
                None => 0,
            } + 1) as i16,
        ) && u.fail_reason is None,
        !retries_left(*task) ==> u.status == BookmarkTaskStatus::Fail && u.retries is None
            && u.fail_reason == Some(error),
{
    if should_retry(task) {
        let previous: i16 = match task.retries {
            Some(r) => r,
            None => 0,
        };
        TaskUpdate {
            status: BookmarkTaskStatus::Pending,
            retries: Some(previous + 1),
            fail_reason: None,
        }
    } else {
        TaskUpdate { status: BookmarkTaskStatus::Fail, retries: None, fail_reason: Some(error) }
    }
}

/// Law: the backoff never shrinks from one attempt to the next, and every
/// attempt waits between five minutes and a day.
pub proof fn law_backoff_monotone(a: int, b: int)
    requires
        1 <= a <= b,
    ensures
        backoff_secs(a) <= backoff_secs(b),
        300 <= backoff_secs(a) <= 86400,
{
}

/// Seconds a claimed task is hidden from the other workers.
pub const NEXT_DELIVERY_WINDOW_SECS: i64 = 300;

/// When a task claimed at `now` (microseconds) is delivered again if it is
/// not updated before.
pub fn next_delivery_after(now: i64) -> (t: i64)
    requires
        now + NEXT_DELIVERY_WINDOW_SECS * MICROS_PER_SEC <= i64::MAX,
    ensures
        t == now + NEXT_DELIVERY_WINDOW_SECS * MICROS_PER_SEC,
{
    now + NEXT_DELIVERY_WINDOW_SECS * MICROS_PER_SEC
}

} // verus!
