use database_receiver::double::Double;
use database_receiver::scraper::completion::{
    Completion, CompletionDecision, CompletionError, CompletionTracker, DeliveryToken,
};
use database_receiver::scraper::cursor::{
    validate_strictly_after, Cursor, CursorError, CursorField,
};
use database_receiver::scraper::poller::{
    PollCycle, PollError, PollEvent, PollOutcome, PollState, PollStep,
};
use database_receiver::otlp::AnyValueKind;
use database_receiver::scraper::mapping::{map_row, MappingConfig, MappingError};
use database_receiver::scraper::row::{CellValue, Column, DatabaseRow, ResultSchema};

fn cursor(fields: Vec<(&str, CellValue)>) -> Cursor {
    Cursor {
        fields: fields
            .into_iter()
            .map(|(column, value)| CursorField { column: column.to_string(), value })
            .collect(),
    }
}

fn position(timestamp: &str, id: i64) -> Cursor {
    cursor(vec![
        ("updated", CellValue::Timestamp(timestamp.to_string())),
        ("id", CellValue::Int64(id)),
    ])
}

fn token(id: u64, batches: usize) -> DeliveryToken {
    DeliveryToken {
        publication_id: id,
        checkpoint_revision: 3,
        candidate_cursor: position("2026-01-01T00:00:00Z", 7),
        expected_batch_count: batches,
    }
}

/// Scenario: a publication of two batches is accepted out of order, one batch twice.
/// Guarantees: progress is committed once, when the last missing batch is accepted.
#[test]
fn progress_is_committed_when_every_batch_is_accepted() {
    let mut tracker = CompletionTracker::new();
    assert!(tracker.begin(token(5, 2)).is_ok());
    assert!(matches!(
        tracker.apply(Completion::Ack { batch_index: 1 }),
        CompletionDecision::Pending
    ));
    assert!(matches!(
        tracker.apply(Completion::Ack { batch_index: 1 }),
        CompletionDecision::Pending
    ));
    assert!(matches!(
        tracker.apply(Completion::Ack { batch_index: 2 }),
        CompletionDecision::Pending
    ));
    let decision = tracker.apply(Completion::Ack { batch_index: 0 });
    match decision {
        CompletionDecision::Commit(committed) => {
            assert_eq!(committed.publication_id, 5);
            assert_eq!(committed.checkpoint_revision, 3);
        }
        _ => panic!("the last acceptance commits"),
    }
    assert!(matches!(
        tracker.apply(Completion::Ack { batch_index: 0 }),
        CompletionDecision::Pending
    ));
}

/// Scenario: a batch is refused or nothing is heard of it.
/// Guarantees: the candidate is given up and a later acceptance no longer commits it.
#[test]
fn refused_publications_are_given_up() {
    for (completion, replayed) in [
        (Completion::Nack { batch_index: 0, retryable: true }, true),
        (Completion::Nack { batch_index: 0, retryable: false }, false),
        (Completion::Timeout, true),
    ] {
        let mut tracker = CompletionTracker::new();
        assert!(tracker.begin(token(1, 1)).is_ok());
        let decision = tracker.apply(completion);
        if replayed {
            assert!(matches!(decision, CompletionDecision::ReplayFromCommitted));
        } else {
            assert!(matches!(decision, CompletionDecision::FailPermanent));
        }
        let late = tracker.apply(Completion::Ack { batch_index: 0 });
        assert!(matches!(late, CompletionDecision::Pending));
        assert!(tracker.begin(token(2, 1)).is_ok());
    }
}

/// Scenario: a publication has no batches, or another one is still awaited.
/// Guarantees: each is refused for its own reason and the awaited one stays.
#[test]
fn one_publication_is_awaited_at_a_time() {
    let mut tracker = CompletionTracker::new();
    assert_eq!(tracker.begin(token(1, 0)), Err(CompletionError::InvalidBatchCount));
    assert!(tracker.begin(token(1, 1)).is_ok());
    assert_eq!(
        tracker.begin(token(2, 1)),
        Err(CompletionError::CandidateAlreadyPending)
    );
    match tracker.apply(Completion::Ack { batch_index: 0 }) {
        CompletionDecision::Commit(committed) => assert_eq!(committed.publication_id, 1),
        _ => panic!("the first publication is committed"),
    }
}

/// Scenario: positions differ in the timestamp, only in the tie-breaker, or not at all.
/// Guarantees: only a later position is usable, and following is transitive.
#[test]
fn positions_advance_strictly() {
    let first = position("2026-01-01T00:00:00Z", 7);
    let second = position("2026-01-01T00:00:00Z", 8);
    let third = position("2026-01-02T00:00:00Z", 1);
    assert_eq!(validate_strictly_after(None, &first), Ok(()));
    assert_eq!(validate_strictly_after(Some(&first), &second), Ok(()));
    assert_eq!(validate_strictly_after(Some(&second), &third), Ok(()));
    assert_eq!(validate_strictly_after(Some(&first), &third), Ok(()));
    assert_eq!(
        validate_strictly_after(Some(&second), &first),
        Err(CursorError::NotStrictlyOrdered)
    );
    assert_eq!(
        validate_strictly_after(Some(&first), &first),
        Err(CursorError::NotStrictlyOrdered)
    );
}

/// Scenario: a page returns a position that can not be compared with the committed one.
/// Guarantees: every reason is told apart.
#[test]
fn unusable_positions_are_told_apart() {
    let committed = position("2026-01-01T00:00:00Z", 7);
    for (returned, error) in [
        (cursor(vec![]), CursorError::MissingColumn),
        (cursor(vec![("updated", CellValue::Null)]), CursorError::NullValue),
        (
            cursor(vec![("updated", CellValue::Float64(Double { bits: 0 }))]),
            CursorError::NotRepresentable,
        ),
        (
            cursor(vec![("updated", CellValue::Timestamp("2027".to_string()))]),
            CursorError::MissingColumn,
        ),
        (
            cursor(vec![("created", CellValue::Timestamp("2027".to_string())), ("id", CellValue::Int64(9))]),
            CursorError::MissingColumn,
        ),
        (
            cursor(vec![("updated", CellValue::Timestamp("2027".to_string())), ("id", CellValue::UInt64(9))]),
            CursorError::TypeChanged,
        ),
    ] {
        assert_eq!(validate_strictly_after(Some(&committed), &returned), Err(error));
    }
}

/// Scenario: positions hold bytes and flags.
/// Guarantees: bytes compare lexicographically and false comes before true.
#[test]
fn bytes_and_flags_have_an_order() {
    let bytes = |value: &[u8]| cursor(vec![("key", CellValue::Bytes(value.to_vec()))]);
    assert_eq!(validate_strictly_after(Some(&bytes(&[1])), &bytes(&[1, 0])), Ok(()));
    assert_eq!(validate_strictly_after(Some(&bytes(&[1, 255])), &bytes(&[2])), Ok(()));
    assert_eq!(
        validate_strictly_after(Some(&bytes(&[2])), &bytes(&[1, 255])),
        Err(CursorError::NotStrictlyOrdered)
    );
    let flag = |value: bool| cursor(vec![("flag", CellValue::Bool(value))]);
    assert_eq!(validate_strictly_after(Some(&flag(false)), &flag(true)), Ok(()));
    assert_eq!(
        validate_strictly_after(Some(&flag(true)), &flag(false)),
        Err(CursorError::NotStrictlyOrdered)
    );
}

fn started() -> PollCycle {
    let mut cycle = PollCycle::new();
    assert_eq!(cycle.state(), PollState::Starting);
    assert_eq!(
        cycle.advance(PollEvent::CheckpointUnavailable),
        PollStep::Failed(PollError::Checkpoint)
    );
    assert_eq!(
        cycle.advance(PollEvent::CheckpointLoaded {
            committed: Some(position("2026-01-01T00:00:00Z", 7)),
            revision: 4,
        }),
        PollStep::Scrape
    );
    cycle
}

fn committed_id(cycle: &PollCycle) -> Option<i64> {
    match cycle.committed()?.fields.last()?.value {
        CellValue::Int64(id) => Some(id),
        _ => None,
    }
}

fn read(timestamp: &str, id: i64, batches: usize) -> PollEvent {
    PollEvent::PageRead { candidate: Some(position(timestamp, id)), batches }
}

/// Scenario: a page is published in two batches, both are accepted and the position is stored.
/// Guarantees: the committed position changes only when the store has taken it, over the revision
/// that the page was read at.
#[test]
fn delivered_pages_are_committed() {
    let mut cycle = started();
    assert_eq!(
        cycle.advance(read("2026-01-01T00:00:00Z", 8, 2)),
        PollStep::Finished(PollOutcome::PublicationPending)
    );
    assert_eq!(cycle.state(), PollState::AwaitingDelivery);
    assert_eq!(cycle.advance(PollEvent::PollEligible), PollStep::Ignore);
    assert_eq!(
        cycle.advance(PollEvent::Delivery(Completion::Ack { batch_index: 0 })),
        PollStep::Finished(PollOutcome::PublicationPending)
    );
    assert_eq!(
        cycle.advance(PollEvent::Delivery(Completion::Ack { batch_index: 1 })),
        PollStep::Commit { expected_revision: 4 }
    );
    assert_eq!(committed_id(&cycle), Some(7));
    assert!(cycle.candidate().is_some());
    assert_eq!(
        cycle.advance(PollEvent::CommitSucceeded),
        PollStep::Finished(PollOutcome::CheckpointCommitted)
    );
    assert_eq!(committed_id(&cycle), Some(8));
    assert_eq!(cycle.state(), PollState::Idle);
    assert_eq!(cycle.advance(PollEvent::PollEligible), PollStep::Scrape);
    assert_eq!(
        cycle.advance(PollEvent::PageRead { candidate: None, batches: 0 }),
        PollStep::Finished(PollOutcome::NoRows)
    );
}

/// Scenario: reading, mapping, delivery or storing fails, or the source is left.
/// Guarantees: the committed position stays where it is and the next poll starts there again.
#[test]
fn failed_cycles_do_not_advance() {
    let failures = [
        (PollEvent::ScrapeFailed, PollStep::Failed(PollError::Driver)),
        (PollEvent::MappingFailed, PollStep::Failed(PollError::Mapping)),
        (read("2026-01-01T00:00:00Z", 7, 1), PollStep::Failed(PollError::Driver)),
        (read("2026-01-01T00:00:00Z", 8, 0), PollStep::Failed(PollError::Mapping)),
    ];
    for (event, step) in failures {
        let mut cycle = started();
        assert_eq!(cycle.advance(event), step);
        assert_eq!(cycle.state(), PollState::BackingOff);
        assert_eq!(committed_id(&cycle), Some(7));
        assert_eq!(cycle.advance(PollEvent::PollEligible), PollStep::Scrape);
    }
    for (completion, step) in [
        (Completion::Timeout, PollStep::Finished(PollOutcome::RetryScheduled)),
        (
            Completion::Nack { batch_index: 0, retryable: true },
            PollStep::Finished(PollOutcome::RetryScheduled),
        ),
        (
            Completion::Nack { batch_index: 0, retryable: false },
            PollStep::Failed(PollError::Completion),
        ),
    ] {
        let mut cycle = started();
        let _ = cycle.advance(read("2026-01-02T00:00:00Z", 1, 1));
        assert_eq!(cycle.advance(PollEvent::Delivery(completion)), step);
        assert_eq!(committed_id(&cycle), Some(7));
    }
    let mut cycle = started();
    let _ = cycle.advance(read("2026-01-02T00:00:00Z", 1, 1));
    let _ = cycle.advance(PollEvent::Delivery(Completion::Ack { batch_index: 0 }));
    assert_eq!(
        cycle.advance(PollEvent::CommitFailed),
        PollStep::Failed(PollError::Checkpoint)
    );
    assert_eq!(committed_id(&cycle), Some(7));
    let _ = cycle.advance(PollEvent::PollEligible);
    let _ = cycle.advance(read("2026-01-02T00:00:00Z", 1, 1));
    assert_eq!(cycle.advance(PollEvent::Drain), PollStep::Stop);
    assert_eq!(cycle.state(), PollState::Draining);
    assert_eq!(
        cycle.advance(PollEvent::Delivery(Completion::Ack { batch_index: 0 })),
        PollStep::Ignore
    );
    assert_eq!(committed_id(&cycle), Some(7));
}

fn schema(names: &[&str]) -> ResultSchema {
    ResultSchema {
        columns: names
            .iter()
            .map(|name| Column {
                name: name.to_string(),
                nullable: true,
                source_type: "text".to_string(),
            })
            .collect(),
    }
}

fn mapping(event_time: Option<&str>) -> MappingConfig {
    MappingConfig {
        event_time_column: event_time.map(|name| name.to_string()),
        reserved_attribute_prefix: "db.".to_string(),
    }
}

/// Scenario: a row of several types is mapped with its event time.
/// Guarantees: every column is an attribute under its own name and the event time is exact.
#[test]
fn rows_map_to_attributes() {
    let row = DatabaseRow {
        values: vec![
            CellValue::TimestampWithTimezone("1970-01-01T00:00:02.000000003Z".to_string()),
            CellValue::Bytes(vec![1, 2, 3]),
            CellValue::UInt64(u64::MAX),
            CellValue::Null,
        ],
    };
    let log = match map_row(&schema(&["at", "raw", "count", "note"]), &row, &mapping(Some("at")), 9) {
        Ok(log) => log,
        Err(error) => panic!("{error:?}"),
    };
    assert_eq!(log.time_unix_nano, 2_000_000_003);
    assert_eq!(log.observed_time_unix_nano, 9);
    let keys: Vec<&str> = log.attributes.iter().map(|pair| pair.key.as_str()).collect();
    assert_eq!(keys, vec!["at", "raw", "count", "note"]);
    let text = |index: usize| match log.attributes[index].value.as_ref().and_then(|v| v.value.as_ref()) {
        Some(AnyValueKind::StringValue(text)) => Some(text.clone()),
        _ => None,
    };
    assert_eq!(text(1).as_deref(), Some("AQID"));
    assert_eq!(text(2).as_deref(), Some("18446744073709551615"));
    assert_eq!(text(3), None);
    let undated = map_row(&schema(&["at", "raw", "count", "note"]), &row, &mapping(None), 9);
    assert_eq!(undated.map(|log| log.time_unix_nano).ok(), Some(0));
}

/// Scenario: rows can not be mapped.
/// Guarantees: every reason is told apart.
#[test]
fn unmappable_rows_are_told_apart() {
    let values = |count: i64| DatabaseRow { values: (0..count).map(CellValue::Int64).collect() };
    let error = |names: &[&str], row: DatabaseRow, event: Option<&str>| {
        map_row(&schema(names), &row, &mapping(event), 0).err()
    };
    assert_eq!(error(&["a"], values(2), None), Some(MappingError::ColumnCountMismatch));
    assert_eq!(error(&["a", "A"], values(2), None), Some(MappingError::DuplicateColumn));
    assert_eq!(
        error(&["a", "db.name"], values(2), None),
        Some(MappingError::ReservedNameCollision)
    );
    assert_eq!(error(&["a"], values(1), Some("b")), Some(MappingError::InvalidEventTime));
    assert_eq!(error(&["a"], values(1), Some("a")), Some(MappingError::InvalidEventTime));
    let nan = DatabaseRow { values: vec![CellValue::Float64(Double { bits: f64::NAN.to_bits() })] };
    assert_eq!(error(&["a"], nan, None), Some(MappingError::UnsupportedValue));
}
