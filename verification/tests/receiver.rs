use database_receiver::database::config::{
    DatabaseReceiverConfig, ErrorPolicy, LimitsConfig, OutputConfig, PaginationConfig, QueryConfig,
    RetryConfig, SchedulingConfig, TimestampConfig,
};
use database_receiver::database::driver::{
    CredentialError, DatabaseSystem, DriverCapabilities, EnvironmentCredentialProvider, ErrorClass,
    ErrorDisposition, SessionDisposition,
};
use database_receiver::database::receiver::{
    check_capabilities, database_error, receiver_error_kind, startup_connect_failure,
    startup_credential_failure, unix_time_nanos, AfterPoll, ControlAction, ControlEvent,
    DatabaseReceiver, DeliveryStep, PollOutcome, ReceiverErrorKind,
};
use database_receiver::database::row::{CellValue, ColumnMetadata, Row, RowBatch, RowPage};
use database_receiver::names::NameMap;
use database_receiver::time::{Duration, Instant};

fn query(timestamp: Option<&str>, error_policy: ErrorPolicy) -> QueryConfig {
    QueryConfig {
        sql: "SELECT id FROM events".to_string(),
        interval: Duration::from_secs(30),
        timeout: Duration::from_secs(10),
        pagination: PaginationConfig { max_rows: 100 },
        parameters: NameMap::new(),
        output: OutputConfig {
            timestamp: timestamp.map(|column| TimestampConfig { column: column.to_string() }),
            ..OutputConfig::default()
        },
        error_policy,
    }
}

fn configured(
    queries: Vec<(&str, QueryConfig)>,
    concurrent: usize,
    retry: bool,
) -> DatabaseReceiver<&'static str> {
    under_pressure(queries, concurrent, retry, false)
}

fn under_pressure(
    queries: Vec<(&str, QueryConfig)>,
    concurrent: usize,
    retry: bool,
    shedding: bool,
) -> DatabaseReceiver<&'static str> {
    let mut named = NameMap::new();
    for (name, query) in queries {
        named.insert(name.to_string(), query);
    }
    let config = DatabaseReceiverConfig {
        database: (),
        limits: LimitsConfig { max_concurrent_queries: concurrent, ..LimitsConfig::default() },
        scheduling: SchedulingConfig { startup_jitter_max: Duration::zero() },
        retry: RetryConfig {
            enabled: retry,
            initial_backoff: Duration::from_secs(2),
            multiplier: 2,
        },
        resource_attributes: NameMap::new(),
        queries: named,
    };
    match DatabaseReceiver::new(
        config,
        DatabaseSystem::Oracle,
        "reader".to_string(),
        "READER_PWD".to_string(),
        shedding,
        at(0),
    ) {
        Ok(receiver) => receiver,
        Err(_) => panic!("queries bind no parameters"),
    }
}

fn at(secs: u64) -> Instant {
    Instant { nanos: u128::from(secs) * 1_000_000_000 }
}

fn page(values: Vec<i64>) -> RowPage {
    let rows: Vec<Row> = values
        .into_iter()
        .map(|value| Row { values: vec![CellValue::Int64(value)] })
        .collect();
    RowPage {
        row_count: rows.len(),
        normalized_bytes: 64,
        batches: vec![RowBatch {
            columns: vec![ColumnMetadata {
                name: "ID".to_string(),
                source_type: "NUMBER".to_string(),
                nullable: false,
            }],
            rows,
            normalized_bytes: 64,
        }],
    }
}

fn failed(class: ErrorClass, retryable: bool, session: SessionDisposition) -> ErrorDisposition {
    ErrorDisposition { class, retryable, session }
}

/// Scenario: two queries are due and one may run.
/// Guarantees: one is admitted at a time, the session goes back into use, and the interval counts
/// from completion.
#[test]
fn polls_are_admitted_one_after_the_other() {
    let mut receiver = configured(
        vec![
            ("first", query(None, ErrorPolicy::StopQuery)),
            ("second", query(None, ErrorPolicy::StopQuery)),
        ],
        1,
        false,
    );
    assert_eq!(receiver.job_count(), 2);
    assert!(receiver.waits_for_deadline());
    let admitted = receiver.admit_due(at(0), 1);
    assert_eq!(admitted.len(), 1);
    assert_eq!(admitted[0].job_index, 0);
    assert!(admitted[0].session.is_none());
    assert_eq!(admitted[0].limits.max_rows, 100);
    assert_eq!(admitted[0].limits.max_page_bytes, 16 * 1024 * 1024);
    assert!(receiver.job_running(0));
    assert!(!receiver.waits_for_deadline());
    assert!(receiver.admit_due(at(0), 1).is_empty());

    let step = receiver.handle_completion(
        0,
        PollOutcome::Page { session: "session", expired: false, page: page(vec![1, 2]) },
        Duration::from_secs(1),
        77,
        at(5),
    );
    assert!(step.close.is_none());
    let mut delivery = match step.next {
        AfterPoll::Deliver(delivery) => delivery,
        _ => panic!("a page is delivered"),
    };
    match receiver.deliver_next(&mut delivery, at(5)) {
        DeliveryStep::Send(logs) => {
            let records = &logs.resource_logs[0].scope_logs[0].log_records;
            assert_eq!(records.len(), 2);
            assert_eq!(records[0].observed_time_unix_nano, 77);
        }
        _ => panic!("the batch is sent"),
    }
    receiver.batch_delivered(0);
    assert!(matches!(receiver.deliver_next(&mut delivery, at(5)), DeliveryStep::Finished));
    assert!(!receiver.job_running(0));

    let admitted = receiver.admit_due(at(6), 1);
    assert_eq!(admitted.len(), 1);
    assert_eq!(admitted[0].job_index, 1);
    assert_eq!(admitted[0].session, Some("session"));
    assert_eq!(receiver.next_deadline(at(6)).nanos, at(35).nanos);

    let reports = receiver.report_jobs();
    assert_eq!(reports.len(), 2);
    assert_eq!(reports[0].attributes.database_system, "oracle");
    assert_eq!(reports[0].attributes.query_name, receiver.query(0).name);
    assert_eq!(reports[1].attributes.query_name, receiver.query(1).name);
    assert_eq!(reports[0].polls_completed, 1);
    assert_eq!(reports[0].rows_read, 2);
    assert_eq!(reports[0].bytes_read, 64);
    assert_eq!(reports[0].batches_sent, 1);
    assert_eq!(reports[0].poll_durations, vec![Duration::from_secs(1)]);
    assert_eq!(reports[1].polls_started, 1);
    assert!(receiver.report_job(0).poll_durations.is_empty());
}

/// Scenario: an expired session returns a page and another page can not be mapped.
/// Guarantees: the session is closed; the failed query stops alone or stops the receiver.
#[test]
fn pages_that_can_not_be_mapped_stop_by_policy() {
    for policy in [ErrorPolicy::StopQuery, ErrorPolicy::StopReceiver] {
        let mut receiver = configured(vec![("events", query(Some("ID"), policy))], 1, true);
        assert_eq!(receiver.admit_due(at(0), 1).len(), 1);
        let step = receiver.handle_completion(
            0,
            PollOutcome::Page { session: "old", expired: true, page: page(vec![1]) },
            Duration::from_secs(1),
            77,
            at(1),
        );
        assert_eq!(step.close, Some("old"));
        let mut delivery = match step.next {
            AfterPoll::Deliver(delivery) => delivery,
            _ => panic!("a page is delivered"),
        };
        match receiver.deliver_next(&mut delivery, at(1)) {
            DeliveryStep::QueryStopped => assert_eq!(policy, ErrorPolicy::StopQuery),
            DeliveryStep::Fail(failure) => {
                assert_eq!(policy, ErrorPolicy::StopReceiver);
                assert_eq!(failure.error, "database query 'events' failed with conversion");
                assert_eq!(failure.kind, ReceiverErrorKind::Other);
                assert_eq!(
                    failure.source_detail,
                    "database row failed the configured OTLP mapping"
                );
            }
            _ => panic!("a number is no event time"),
        }
        assert!(!receiver.job_running(0));
        assert!(receiver.admit_due(at(100), 1).is_empty());
        assert_eq!(receiver.report_job(0).failures.conversion, 1);
    }
}

/// Scenario: a driver failure may be retried, or may not.
/// Guarantees: a retry waits for a jittered backoff and keeps the interval's bound; otherwise the
/// policy decides, and a session is kept or closed as the driver says.
#[test]
fn driver_failures_are_retried_or_final() {
    let mut receiver = configured(vec![("events", query(None, ErrorPolicy::StopReceiver))], 1, true);
    assert_eq!(receiver.admit_due(at(0), 1).len(), 1);
    let step = receiver.handle_completion(
        0,
        PollOutcome::Adapter {
            session: Some("broken"),
            disposition: failed(ErrorClass::TransientTransport, true, SessionDisposition::Discard),
        },
        Duration::from_secs(1),
        0,
        at(10),
    );
    assert_eq!(step.close, Some("broken"));
    assert!(matches!(step.next, AfterPoll::Continue));
    let due = receiver.next_deadline(at(10)).nanos;
    assert!(at(11).nanos <= due && due <= at(12).nanos);
    assert!(receiver.admit_due(at(10), 1).is_empty());
    let admitted = receiver.admit_due(at(12), 1);
    assert_eq!(admitted.len(), 1);
    assert!(admitted[0].session.is_none());

    let step = receiver.handle_completion(
        0,
        PollOutcome::Adapter {
            session: Some("sound"),
            disposition: failed(ErrorClass::Query, false, SessionDisposition::Reuse),
        },
        Duration::from_secs(1),
        0,
        at(13),
    );
    assert_eq!(step.close, None);
    match step.next {
        AfterPoll::Fail(failure) => {
            assert_eq!(failure.error, "database query 'events' failed with query");
            assert_eq!(failure.kind, ReceiverErrorKind::Transport);
            assert_eq!(failure.source_detail, "");
        }
        _ => panic!("the failure is final"),
    }
    assert_eq!(receiver.close_idle(), Some("sound"));
    assert_eq!(receiver.close_idle(), None);
    let report = receiver.report_job(0);
    assert_eq!((report.failures.transient_transport, report.failures.query), (1, 1));
}

/// Scenario: credentials can not be resolved, and a stop comes while a poll runs.
/// Guarantees: the receiver fails with the variable's name; an abandoned poll gives everything back.
#[test]
fn missing_credentials_stop_the_receiver() {
    let mut receiver = configured(vec![("events", query(None, ErrorPolicy::StopQuery))], 1, true);
    assert_eq!(receiver.admit_due(at(0), 1).len(), 1);
    let error = match receiver.credentials().resolve(None) {
        Err(error) => error,
        Ok(_) => panic!("no password is known"),
    };
    let step = receiver.handle_completion(
        0,
        PollOutcome::Credentials { error },
        Duration::from_secs(1),
        0,
        at(1),
    );
    match step.next {
        AfterPoll::Fail(failure) => {
            assert_eq!(failure.error, "database query 'events' failed with authentication");
            assert_eq!(failure.kind, ReceiverErrorKind::Configuration);
            assert_eq!(
                failure.source_detail,
                "failed to read database password from environment variable READER_PWD"
            );
        }
        _ => panic!("credentials are required"),
    }
    let mut receiver = configured(vec![("events", query(None, ErrorPolicy::StopQuery))], 1, true);
    assert_eq!(receiver.admit_due(at(0), 1).len(), 1);
    receiver.poll_abandoned(0);
    assert!(!receiver.job_running(0));
    assert!(receiver.waits_for_deadline());
    assert!(receiver.needs_connection(1));
    receiver.connection_opened("ready");
    assert!(!receiver.needs_connection(1));
}

/// Scenario: the next component does not take a batch.
/// Guarantees: the poll counts as a downstream failure and its job ends.
#[test]
fn refused_batches_end_the_job() {
    let mut receiver = configured(vec![("events", query(None, ErrorPolicy::StopQuery))], 1, false);
    assert_eq!(receiver.admit_due(at(0), 1).len(), 1);
    let step = receiver.handle_completion(
        0,
        PollOutcome::Page { session: "session", expired: false, page: page(vec![1]) },
        Duration::from_secs(1),
        77,
        at(1),
    );
    let mut delivery = match step.next {
        AfterPoll::Deliver(delivery) => delivery,
        _ => panic!("a page is delivered"),
    };
    assert!(matches!(receiver.deliver_next(&mut delivery, at(1)), DeliveryStep::Send(_)));
    receiver.batch_refused(&delivery);
    assert!(!receiver.job_running(0));
    let report = receiver.report_job(0);
    assert_eq!((report.failures.downstream, report.polls_completed), (1, 0));
}

/// Scenario: the pipeline sends control messages.
/// Guarantees: memory pressure holds polls back until it is over, and only a drain is confirmed.
#[test]
fn control_messages_are_answered() {
    let mut receiver = configured(vec![("events", query(None, ErrorPolicy::StopQuery))], 1, false);
    assert_eq!(
        receiver.handle_control(ControlEvent::MemoryPressureChanged { shed: true }),
        ControlAction::Continue
    );
    assert!(receiver.admit_due(at(0), 1).is_empty());
    assert!(!receiver.waits_for_deadline());
    assert_eq!(
        receiver.handle_control(ControlEvent::MemoryPressureChanged { shed: false }),
        ControlAction::Continue
    );
    assert_eq!(receiver.admit_due(at(0), 1).len(), 1);
    assert_eq!(receiver.handle_control(ControlEvent::CollectTelemetry), ControlAction::Report);
    assert_eq!(receiver.handle_control(ControlEvent::Other), ControlAction::Continue);
    assert_eq!(
        receiver.handle_control(ControlEvent::DrainIngress),
        ControlAction::Stop { notify_drained: true }
    );
    assert_eq!(
        receiver.handle_control(ControlEvent::Shutdown),
        ControlAction::Stop { notify_drained: false }
    );
}

/// Scenario: startup fails before the first poll.
/// Guarantees: failures name the startup and carry no secret.
#[test]
fn startup_failures_are_reported() {
    let able = DriverCapabilities { cancellation: true, result_metadata: true, parameter_binding: true };
    assert!(check_capabilities(able).is_ok());
    let failure = match check_capabilities(DriverCapabilities { cancellation: false, ..able }) {
        Err(failure) => failure,
        Ok(()) => panic!("cancellation is required"),
    };
    assert_eq!(failure.error, "database query '<startup>' failed with configuration");
    let error = CredentialError::Environment { name: "PWD_VARIABLE".to_string() };
    assert_eq!(
        startup_credential_failure(&error).source_detail,
        "failed to read database password from environment variable PWD_VARIABLE"
    );
    let failure = startup_connect_failure(ErrorClass::TimeoutCancel);
    assert_eq!(failure.error, "database query '<startup>' failed with timeout_cancel");
    assert_eq!(failure.kind, ReceiverErrorKind::Transport);
}

/// Scenario: failures of every class are reported to the engine.
/// Guarantees: each class has its kind, its name and its place in the metrics.
#[test]
fn failure_classes_are_stable() {
    for (class, name, kind) in [
        (ErrorClass::Configuration, "configuration", ReceiverErrorKind::Configuration),
        (ErrorClass::Authentication, "authentication", ReceiverErrorKind::Configuration),
        (ErrorClass::TransientTransport, "transient_transport", ReceiverErrorKind::Transport),
        (ErrorClass::TimeoutCancel, "timeout_cancel", ReceiverErrorKind::Transport),
        (ErrorClass::Query, "query", ReceiverErrorKind::Transport),
        (ErrorClass::Conversion, "conversion", ReceiverErrorKind::Other),
        (ErrorClass::Downstream, "downstream", ReceiverErrorKind::Transport),
        (ErrorClass::Internal, "internal", ReceiverErrorKind::Other),
    ] {
        assert_eq!(class.as_str(), name);
        assert_eq!(receiver_error_kind(class), kind);
        let failure = database_error("q", class, Some("detail".to_string()));
        assert_eq!(failure.error, format!("database query 'q' failed with {name}"));
        assert_eq!(failure.source_detail, "detail");
    }
}

/// Scenario: a password is found and the clock is read.
/// Guarantees: credentials hold what was resolved, and times beyond 64 bits are capped.
#[test]
fn credentials_and_times_are_resolved() {
    let provider = EnvironmentCredentialProvider::new("reader".to_string(), "PWD".to_string());
    let credentials = match provider.resolve(Some("hunter2".to_string())) {
        Ok(credentials) => credentials,
        Err(_) => panic!("the password is known"),
    };
    assert_eq!((credentials.username(), credentials.password()), ("reader", "hunter2"));
    assert_eq!(unix_time_nanos(None), 0);
    assert_eq!(unix_time_nanos(Some(Duration::new(2, 5))), 2_000_000_005);
    assert_eq!(unix_time_nanos(Some(Duration::from_secs(u64::MAX))), u64::MAX);
}

/// Scenario: a receiver is built while memory is scarce.
/// Guarantees: nothing is admitted until the pressure is over.
#[test]
fn a_receiver_can_start_under_memory_pressure() {
    let queries = vec![("events", query(None, ErrorPolicy::StopQuery))];
    let mut receiver = under_pressure(queries, 1, false, true);
    assert!(receiver.admit_due(at(0), 1).is_empty());
    receiver.set_shedding(false);
    assert_eq!(receiver.admit_due(at(0), 1).len(), 1);
}

/// Scenario: the only query is due in two days, then it runs.
/// Guarantees: the deadline is the query's own however far off; with nothing waiting it is a day.
#[test]
fn deadlines_are_those_of_waiting_queries() {
    let mut rare = query(None, ErrorPolicy::StopQuery);
    rare.interval = Duration::from_secs(172_800);
    let mut receiver = configured(vec![("events", rare)], 1, false);
    assert_eq!(receiver.admit_due(at(0), 1).len(), 1);
    assert_eq!(receiver.next_deadline(at(0)).nanos, at(86_400).nanos);
    let step = receiver.handle_completion(
        0,
        PollOutcome::Page { session: "session", expired: false, page: page(vec![1]) },
        Duration::from_secs(1),
        1,
        at(0),
    );
    let mut delivery = match step.next {
        AfterPoll::Deliver(delivery) => delivery,
        _ => panic!("a page is delivered"),
    };
    while let DeliveryStep::Send(_) = receiver.deliver_next(&mut delivery, at(0)) {
        receiver.batch_delivered(0);
    }
    assert_eq!(receiver.next_deadline(at(0)).nanos, at(172_800).nanos);
}
