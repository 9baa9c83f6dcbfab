use database_receiver::database::config::RetryConfig;
use database_receiver::database::scheduler::{AdmissionController, QuerySchedule};
use database_receiver::time::{Duration, Instant};

/// Scenario: a completed query has missed one or more original interval boundaries.
/// Guarantees: Delay semantics schedule the next run relative to completion, not catch-up time.
#[test]
fn completion_uses_delay_semantics() {
    let now = Instant { nanos: 5_000_000_000 };
    let mut schedule = QuerySchedule::new(now, Duration::from_secs(30), Duration::zero());
    schedule.start(100);
    let completed = Instant { nanos: now.nanos + 90_000_000_000 };
    assert_eq!(schedule.complete(completed), 100);
    assert_eq!(
        schedule.next_due().map(|due| due.nanos),
        Some(completed.nanos + 30_000_000_000)
    );
}

/// Scenario: query and memory budgets are both exhausted.
/// Guarantees: no additional poll is admitted until an existing reservation is released.
#[test]
fn admission_bounds_concurrency_and_bytes() {
    let mut admission = AdmissionController::new(2, 200);
    assert!(admission.try_acquire(100));
    assert!(admission.try_acquire(100));
    assert!(!admission.try_acquire(1));
    admission.release(100);
    assert!(admission.try_acquire(100));
}

/// Scenario: a stopped query is started, completed, retried and stopped again.
/// Guarantees: it has no deadline and is never due; each end returns what the start reserved.
#[test]
fn a_stopped_query_stays_stopped() {
    let now = Instant { nanos: 0 };
    let later = Instant { nanos: 1_000_000_000_000 };
    let mut schedule = QuerySchedule::new(now, Duration::from_secs(30), Duration::zero());
    schedule.start(70);
    assert_eq!(schedule.stop(), 70);
    assert_eq!(schedule.stop(), 0);
    schedule.start(5);
    assert_eq!(schedule.complete(now), 5);
    assert!(schedule.next_due().is_none());
    schedule.start(6);
    assert_eq!(schedule.retry(now, &RetryConfig::default()), 6);
    assert!(schedule.next_due().is_none());
    assert!(!schedule.is_due(later));
}
