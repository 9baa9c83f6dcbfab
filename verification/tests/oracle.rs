use database_receiver::database::config::{
    DatabaseReceiverConfig, ErrorPolicy, LimitsConfig, OutputConfig, PaginationConfig,
    QueryConfig, RetryConfig, SchedulingConfig,
};
use database_receiver::database::receiver::ReceiverErrorKind;
use database_receiver::database::row::CellValue;
use database_receiver::double::Double;
use database_receiver::names::NameMap;
use database_receiver::oracle::cancellation::CancellationState;
use database_receiver::oracle::config::{
    default_password_env, require_single_core, OracleConnectionConfig, OraclePoolConfig,
    OracleReceiverConfig, OracleTlsConfig, OracleTlsMode,
};
use database_receiver::oracle::connect::{
    bounded_connect_string, check_credential_file, initialize_client, read_credential, ClientStep,
};
use database_receiver::oracle::error::{classify_error, NativeCodes, OracleAdapterError};
use database_receiver::oracle::plan::DecodePlan;
use database_receiver::oracle::timestamp::{
    cursor_text, format_oracle_timestamp, parse_cursor_timestamp, OracleTimestamp,
};
use database_receiver::oracle::types::{
    bounded_fetch_array_size, cursor_bind_type, metadata_matches, result_metadata,
    validate_cursor_columns, validate_described_cursor_columns, validate_types, OracleColumn,
    OracleType,
};
use database_receiver::oracle::value::{
    finite_float, fits_column, normalize_cell, NativeValue,
};
use database_receiver::polling::{
    CatchUpConfig, CompiledQuery, CompositeCursor, CompositeWatermark, PollingConfig,
    TieBreakerWatermark, TimestampWatermark, WatermarkConfig,
};
use database_receiver::time::Duration;

fn watermark() -> CompositeWatermark {
    CompositeWatermark {
        timestamp_column: "EVENT_TS".to_owned(),
        timestamp_bind: "last_timestamp".to_owned(),
        tie_breaker_column: "EVENT_ID".to_owned(),
        tie_breaker_bind: "last_tie_breaker".to_owned(),
        initial: CompositeCursor::new("1970-01-01 00:00:00".to_owned(), 0),
    }
}

fn column(name: &str, oracle_type: OracleType) -> OracleColumn {
    OracleColumn {
        name: name.to_owned(),
        oracle_type,
        source_type: format!("{oracle_type:?}"),
        nullable: false,
    }
}

fn columns(timestamp: OracleType, tie_breaker: OracleType) -> Vec<OracleColumn> {
    vec![
        column("PAYLOAD", OracleType::Varchar2(64)),
        column("EVENT_TS", timestamp),
        column("EVENT_ID", tie_breaker),
    ]
}

/// Scenario: live metadata reports supported cursor types under differing identifier case.
/// Guarantees: both cursor columns are resolved to their result positions, so the receiver reads
/// each row's cursor from the correct columns regardless of driver quoting behavior.
#[test]
fn resolves_supported_cursor_columns_case_insensitively() {
    let mut described = columns(OracleType::Timestamp(6), OracleType::Number(18, 0));
    described[1].name = "event_ts".to_owned();

    let (timestamp_index, tie_breaker_index) =
        validate_described_cursor_columns(&described, &watermark()).expect("cursor columns");

    assert_eq!(timestamp_index, 1);
    assert_eq!(tie_breaker_index, 2);
}

/// Scenario: every supported Oracle DATE and TIMESTAMP family type is used as the cursor.
/// Guarantees: the documented supported timestamp types are all accepted, so a valid deployment
/// is not rejected because of a timestamp precision or timezone variant.
#[test]
fn accepts_the_supported_oracle_timestamp_family() {
    for timestamp in [
        OracleType::Date,
        OracleType::Timestamp(0),
        OracleType::Timestamp(9),
        OracleType::TimestampTZ(6),
        OracleType::TimestampLTZ(6),
    ] {
        assert!(
            validate_described_cursor_columns(
                &columns(timestamp, OracleType::Int64),
                &watermark(),
            )
            .is_ok(),
            "timestamp type '{timestamp:?}' must be supported"
        );
    }
}

/// Scenario: a cursor column has a non-temporal, fractional, or otherwise non-deterministic type.
/// Guarantees: unsupported cursor metadata fails before polling, so the receiver never paginates
/// on a column whose ordering or checkpoint round trip is not exact.
#[test]
fn rejects_unsupported_cursor_column_types() {
    for kind in [
        OracleType::UInt64,
        OracleType::Number(38, 0),
        OracleType::Number(19, 0),
    ] {
        assert!(
            validate_described_cursor_columns(
                &columns(OracleType::Timestamp(6), kind),
                &watermark(),
            )
            .is_err()
        );
    }
    assert!(matches!(
        validate_described_cursor_columns(
            &columns(OracleType::Varchar2(32), OracleType::Int64),
            &watermark(),
        ),
        Err(OracleAdapterError::UnsupportedCursorTimestamp { .. })
    ));
    assert!(matches!(
        validate_described_cursor_columns(
            &columns(OracleType::Timestamp(6), OracleType::Number(38, 2)),
            &watermark(),
        ),
        Err(OracleAdapterError::UnsupportedCursorTieBreaker { .. })
    ));
    assert!(matches!(
        validate_described_cursor_columns(
            &columns(OracleType::Timestamp(6), OracleType::BinaryDouble),
            &watermark(),
        ),
        Err(OracleAdapterError::UnsupportedCursorTieBreaker { .. })
    ));
}

/// Scenario: a configured cursor column is absent from the query's result metadata.
/// Guarantees: a mismatch between the statement and the cursor configuration fails at startup
/// rather than at the first row fetch.
#[test]
fn rejects_missing_cursor_columns() {
    let described = vec![column("PAYLOAD", OracleType::Varchar2(64))];

    assert!(matches!(
        validate_described_cursor_columns(&described, &watermark()),
        Err(OracleAdapterError::MissingCursorColumn(column)) if column == "EVENT_TS"
    ));
}

/// Scenario: a cursor column may be NULL.
/// Guarantees: the schema is refused, whichever column it is.
#[test]
fn nullable_cursor_columns_are_refused() {
    for index in [1, 2] {
        let mut described = columns(OracleType::Date, OracleType::Int64);
        described[index].nullable = true;
        assert!(matches!(
            validate_cursor_columns(&described, &watermark()),
            Err(OracleAdapterError::NullableCursorColumn)
        ));
    }
    let mut described = columns(OracleType::Date, OracleType::Int64);
    described[0].nullable = true;
    assert_eq!(
        validate_cursor_columns(&described, &watermark()).expect("payload may be NULL"),
        (1, 2)
    );
}

/// Scenario: a committed cursor timestamp is bound back into Oracle after a restart.
/// Guarantees: the checkpointed text round-trips through the Oracle timestamp type without
/// losing sub-second precision, so replay resumes at the exact committed boundary.
#[test]
fn cursor_timestamp_round_trips_through_oracle() {
    let committed = cursor_text(
        &parse_cursor_timestamp("2026-01-01 12:34:56.123456789")
            .expect("committed timestamp should parse"),
    );

    let rebound = parse_cursor_timestamp(&committed).expect("committed text should rebind");

    assert_eq!(cursor_text(&rebound), committed);
    assert_eq!(rebound.nanosecond, 123_456_789);
}

/// Scenario: a committed timezone-aware cursor is rebound after restart.
/// Guarantees: the bind type retains the cursor's UTC offset instead of coercing it to a
/// timezone-naive timestamp and moving the polling boundary.
#[test]
fn timezone_aware_cursor_uses_a_timezone_aware_bind() {
    let committed = parse_cursor_timestamp("2026-01-01 12:34:56.123456789 +05:30")
        .expect("timezone-aware cursor should parse");

    assert!(committed.with_tz);
    assert_eq!(committed.tz_hour_offset * 3600 + committed.tz_minute_offset * 60, 19_800);
    assert!(matches!(cursor_bind_type(), OracleType::TimestampTZ(9)));
}

/// Scenario: a checkpoint file holds a cursor timestamp Oracle cannot parse.
/// Guarantees: an invalid committed timestamp is reported explicitly instead of being
/// interpolated into SQL or silently reset to the initial cursor.
#[test]
fn rejects_uninterpretable_cursor_timestamps() {
    assert!(parse_cursor_timestamp("not-a-timestamp").is_err());
}

/// Scenario: Configured or checkpointed cursor text contains oversized numeric components.
/// Guarantees: The shared Oracle parsing boundary rejects overflow, narrowing, and precision loss.
#[test]
fn cursor_parser_rejects_oversized_numeric_components() {
    for text in [
        "9".repeat(40),
        "4294969322-01-01 00:00:00".to_owned(),
        "2026-01-01 00:00:00.1234567890".to_owned(),
    ] {
        assert!(matches!(
            parse_cursor_timestamp(&text),
            Err(OracleAdapterError::InvalidCursorTimestamp(_))
        ));
    }
}

/// Scenario: a cursor's text cannot be read, for either reason.
/// Guarantees: the reason is told, and the description holds neither it nor the text.
#[test]
fn unreadable_cursors_say_why() {
    for (text, reason) in [
        ("2026-01-01 00:00:00.1234567890", "timestamp numeric component exceeds nine digits"),
        ("2026-13-01 00:00:00", "timestamp is not an Oracle timestamp"),
    ] {
        match parse_cursor_timestamp(text) {
            Err(OracleAdapterError::InvalidCursorTimestamp(fault)) => assert_eq!(fault, reason),
            _ => panic!("{text}"),
        }
    }
    assert_eq!(
        OracleAdapterError::InvalidCursorTimestamp("reason").describe(),
        "committed watermark timestamp is not a valid Oracle timestamp"
    );
}

/// Scenario: timestamps of every precision, sign and offset are written as the client library
/// writes them and read back.
/// Guarantees: the text is the library's own, and reading it gives the timestamp back.
#[test]
fn cursor_texts_agree_with_the_client_library() {
    for (text, precision) in [
        ("2026-01-01 12:34:56", 0),
        ("2026-01-01 12:34:56.5", 1),
        ("9999-12-31 23:59:59.999999999", 9),
        ("7-02-03 00:00:00.000001", 6),
        ("-123-03-04 05:06:07 -08:45", 0),
        ("2026-01-01 12:34:56.120 -00:30", 3),
        ("2026-01-01 12:34:56.120 +14:00", 3),
    ] {
        let parsed = parse_cursor_timestamp(text).expect("timestamp");
        assert_eq!(parsed.precision, precision, "{text}");
        assert_eq!(cursor_text(&parsed), text);
        let native: oracle::sql_type::Timestamp = text.parse().expect("timestamp");
        assert_eq!(native.to_string(), cursor_text(&parsed));
    }
}

/// Scenario: timestamps are normalized for output.
/// Guarantees: nine fractional digits, four-digit years, and an offset where one is asked for.
#[test]
fn timestamps_have_one_normal_form() {
    let ts = OracleTimestamp {
        year: 2026,
        month: 1,
        day: 2,
        hour: 3,
        minute: 4,
        second: 5,
        nanosecond: 60_000,
        tz_hour_offset: -3,
        tz_minute_offset: -30,
        precision: 6,
        with_tz: true,
    };
    assert_eq!(format_oracle_timestamp(&ts, false), "2026-01-02T03:04:05.000060000");
    assert_eq!(format_oracle_timestamp(&ts, true), "2026-01-02T03:04:05.000060000-03:30");
    let ancient = OracleTimestamp { year: -5, tz_hour_offset: 0, tz_minute_offset: 0, ..ts };
    assert_eq!(format_oracle_timestamp(&ancient, true), "-005-01-02T03:04:05.000060000+00:00");
}

/// Scenario: Oracle returns a non-finite binary floating-point value.
/// Guarantees: Driver normalization fails the batch instead of emitting invalid OTLP data.
#[test]
fn rejects_non_finite_float() {
    assert!(matches!(
        finite_float(CellValue::Float64(Double { bits: f64::NAN.to_bits() })),
        Err(OracleAdapterError::NonFiniteFloat)
    ));
}

/// Scenario: values of several types are normalized.
/// Guarantees: numbers stay exact text, singles widen exactly, and a value of another form does
/// not fit its column.
#[test]
fn values_normalize_by_type() {
    let number = OracleType::Number(38, 2);
    let value = NativeValue::Text("123456789012345678901234567890.12".to_owned());
    assert!(fits_column(&number, &value));
    assert!(matches!(
        normalize_cell(&number, value),
        Ok(CellValue::Decimal(text)) if text == "123456789012345678901234567890.12"
    ));
    assert!(matches!(
        normalize_cell(&OracleType::BinaryFloat, NativeValue::Single(1.5f32.to_bits())),
        Ok(CellValue::Float64(double)) if double.bits == 1.5f64.to_bits()
    ));
    assert!(matches!(
        normalize_cell(&OracleType::IntervalYM(2), NativeValue::Text("+01-02".to_owned())),
        Ok(CellValue::Interval(text)) if text == "+01-02"
    ));
    assert!(!fits_column(&OracleType::Date, &NativeValue::Int64(1)));
    assert!(!fits_column(&OracleType::Unsupported, &NativeValue::Null));
}

/// Scenario: Oracle result metadata contains a vendor type without a CellValue mapping.
/// Guarantees: Metadata validation fails explicitly instead of using a lossy fallback.
#[test]
fn rejects_unsupported_vendor_type() {
    let mut lob = column("BODY", OracleType::Unsupported);
    lob.source_type = "BLOB".to_owned();
    assert!(matches!(
        validate_types(&vec![lob]),
        Err(OracleAdapterError::UnsupportedType(name)) if name == "BLOB"
    ));
}

/// Scenario: An Easy Connect string uses a query timeout longer than connection establishment.
/// Guarantees: Connection and transport attempts remain bounded while query calls retain their
/// independently configured timeout.
#[test]
fn adds_bounded_network_timeouts() {
    let connect_string =
        bounded_connect_string("database.contoso.com:1521/ORCL", &Duration::from_secs(120))
            .expect("Easy Connect string should be supported");

    assert_eq!(
        connect_string,
        "database.contoso.com:1521/ORCL?connect_timeout=10&transport_connect_timeout=10"
    );
}

/// Scenario: An Easy Connect string adds retries or multiple database addresses.
/// Guarantees: Connection establishment cannot multiply the fixed per-attempt startup bound.
#[test]
fn rejects_unbounded_connection_attempts() {
    for connect_string in [
        "database.contoso.com:1521/ORCL?retry_count=10",
        "database.contoso.com:1521/ORCL?retry_delay=5",
        "db1.contoso.com,db2.contoso.com:1521/ORCL",
    ] {
        assert!(bounded_connect_string(connect_string, &Duration::from_secs(120)).is_err());
    }
}

/// Scenario: connect strings that carry parameters, descriptors or timeouts of their own.
/// Guarantees: parameters are extended, and each refusal has its own error.
#[test]
fn connect_strings_are_extended_or_refused() {
    assert_eq!(
        bounded_connect_string("h/s?x=a,b", &Duration::from_millis(500)).expect("parameters"),
        "h/s?x=a,b&connect_timeout=1&transport_connect_timeout=1"
    );
    assert!(matches!(
        bounded_connect_string("  (DESCRIPTION=)", &Duration::from_secs(1)),
        Err(OracleAdapterError::ConnectDescriptorUnsupported)
    ));
    assert!(matches!(
        bounded_connect_string("h/s?Connect_Timeout=5", &Duration::from_secs(1)),
        Err(OracleAdapterError::ConnectTimeoutOverride)
    ));
    assert!(matches!(
        bounded_connect_string("h/s?retry_count=5", &Duration::from_secs(1)),
        Err(OracleAdapterError::ConnectRetryUnsupported)
    ));
    assert!(matches!(
        bounded_connect_string("a,b/s", &Duration::from_secs(1)),
        Err(OracleAdapterError::MultipleAddressUnsupported)
    ));
}

/// Scenario: A mounted credential contains a trailing newline.
/// Guarantees: Kubernetes-style secret files load without adding the line ending to the credential.
#[test]
fn trims_credential_line_endings() {
    assert_eq!(
        read_credential(b"secret\r\n", "password")
            .expect("credential should load")
            .disclose(),
        "secret"
    );
}

/// Scenario: A mounted credential exceeds the receiver's fixed secret-file ceiling.
/// Guarantees: The adapter rejects the file before allocating or retaining unbounded secret data.
#[test]
fn rejects_oversized_credential() {
    assert!(matches!(
        read_credential(&vec![b'x'; 64 * 1024 + 1], "password"),
        Err(OracleAdapterError::CredentialTooLarge("password"))
    ));
    assert!(matches!(
        check_credential_file(true, 64 * 1024 + 1, "password"),
        Err(OracleAdapterError::CredentialTooLarge("password"))
    ));
    assert!(matches!(
        check_credential_file(false, 0, "username"),
        Err(OracleAdapterError::CredentialNotRegularFile("username"))
    ));
}

/// Scenario: A mounted credential is not valid UTF-8.
/// Guarantees: Invalid text is rejected without including credential bytes in diagnostics.
#[test]
fn rejects_non_utf8_credential() {
    assert!(matches!(
        read_credential(&[0xff], "password"),
        Err(OracleAdapterError::InvalidCredentialEncoding("password"))
    ));
    assert!(matches!(
        read_credential(b"\r\n\n", "password"),
        Err(OracleAdapterError::EmptyCredential("password"))
    ));
}

/// Scenario: Cancellation arrives before any connection exists, then shutdown closes the adapter.
/// Guarantees: The operation is cancelled without spawning native work and cannot restart after shutdown.
#[test]
fn cancellation_before_connect_stops_admission() {
    let mut state = CancellationState::new();
    state.begin_operation().expect("operation");
    assert!(!state.request(), "no active connection");
    assert!(matches!(state.ensure_not_requested(), Err(OracleAdapterError::Cancelled)));
    assert!(matches!(state.register(), Err(OracleAdapterError::Cancelled)));
    state.stop();
    assert!(matches!(state.begin_operation(), Err(OracleAdapterError::Cancelled)));
}

/// Scenario: Cancellation is requested during a native call that otherwise succeeds.
/// Guarantees: Its result is rejected and no subsequent call begins for that operation.
#[test]
fn cancellation_is_checked_between_native_calls() {
    let mut state = CancellationState::new();
    state.ensure_not_requested().expect("first call may begin");
    state.request();
    assert!(matches!(state.after_call(Ok(())), Err(OracleAdapterError::Cancelled)));
    assert!(matches!(state.ensure_not_requested(), Err(OracleAdapterError::Cancelled)));
}

/// Scenario: an operation publishes its connection and withdraws it.
/// Guarantees: cancellation interrupts the published connection only, and a new operation starts
/// uncancelled.
#[test]
fn cancellation_reaches_the_active_connection_only() {
    let mut state = CancellationState::new();
    state.begin_operation().expect("operation");
    state.register().expect("connection");
    assert!(state.request());
    state.release();
    assert!(!state.request());
    state.begin_operation().expect("next operation");
    state.ensure_not_requested().expect("uncancelled");
}

/// Scenario: the process-wide client library was never initialized, by us, or by someone else.
/// Guarantees: the first directory stays and conflicts are reported.
#[test]
fn client_library_is_initialized_once() {
    assert_eq!(initialize_client(None, false, "/a").expect("first"), ClientStep::Initialize);
    assert_eq!(initialize_client(Some("/a"), true, "/a").expect("again"), ClientStep::Ready);
    assert!(matches!(
        initialize_client(Some("/a"), true, "/b"),
        Err(OracleAdapterError::ClientDirectoryConflict)
    ));
    assert!(matches!(
        initialize_client(None, true, "/a"),
        Err(OracleAdapterError::ClientAlreadyInitialized)
    ));
}

/// Scenario: failures of each class are described and classified.
/// Guarantees: native failures show their codes only.
#[test]
fn failures_are_described_by_their_codes() {
    let codes = NativeCodes { oci: Some(-1017), dpi: None };
    let error = OracleAdapterError::Connect(codes);
    assert_eq!(error.describe(), "Oracle connection failed (OCI Some(-1017), DPI None)");
    assert_eq!(classify_error(&error), ReceiverErrorKind::Connect);
    assert_eq!(
        OracleAdapterError::NormalizedByteLimit { normalized_bytes: 12, limit: 10 }.describe(),
        "the first database row normalizes to 12 bytes, exceeding the 10-byte budget from query.max_batch_bytes"
    );
    for (error, kind) in [
        (OracleAdapterError::EmptyCredential("username"), ReceiverErrorKind::Configuration),
        (OracleAdapterError::Fetch(codes), ReceiverErrorKind::Transport),
        (OracleAdapterError::Cancelled, ReceiverErrorKind::Shutdown),
        (OracleAdapterError::Worker, ReceiverErrorKind::Other),
    ] {
        assert_eq!(classify_error(&error), kind);
    }
}

/// Scenario: production Oracle TLS requests full server identity verification.
/// Guarantees: validation requires TCPS and a trusted Oracle wallet.
#[test]
fn verify_full_requires_tcps_and_wallet() {
    let tls = OracleTlsConfig { mode: OracleTlsMode::VerifyFull, wallet_location: None };
    assert!(tls.validate("//localhost:1521/FREEPDB1").is_err());
    assert!(tls.validate("tcps://localhost:2484/FREEPDB1").is_err());

    let tls = OracleTlsConfig {
        mode: OracleTlsMode::VerifyFull,
        wallet_location: Some("C:\\wallet".to_owned()),
    };
    assert!(tls.validate("tcps://localhost:2484/FREEPDB1").is_ok());
    let resolved = tls.apply("tcps://localhost:2484/FREEPDB1");
    assert!(resolved.contains("ssl_server_dn_match=yes"));
    assert_eq!(
        resolved,
        "tcps://localhost:2484/FREEPDB1?wallet_location=C%3A%5Cwallet&ssl_server_dn_match=yes"
    );
    let insecure = OracleTlsConfig { mode: OracleTlsMode::Insecure, wallet_location: None };
    assert_eq!(insecure.apply("TCPS://h/s?a=b"), "TCPS://h/s?a=b&ssl_server_dn_match=no");
    assert_eq!(insecure.apply("//h/s"), "//h/s");
}

fn test_config(
    max_connections: usize,
    max_concurrent_queries: usize,
) -> DatabaseReceiverConfig<OracleConnectionConfig> {
    let mut queries = NameMap::new();
    queries.insert(
        "current_time".to_owned(),
        QueryConfig {
            sql: "SELECT SYSDATE AS CURRENT_TIME FROM DUAL".to_owned(),
            interval: Duration::from_secs(30),
            timeout: Duration::from_secs(10),
            pagination: PaginationConfig { max_rows: 100 },
            parameters: NameMap::new(),
            output: OutputConfig::default(),
            error_policy: ErrorPolicy::default(),
        },
    );
    let mut limits = LimitsConfig::default();
    limits.max_concurrent_queries = max_concurrent_queries;
    let mut pool = OraclePoolConfig::default();
    pool.max_connections = max_connections;
    DatabaseReceiverConfig {
        database: OracleConnectionConfig {
            connect_string: "//localhost:1521/FREEPDB1".to_owned(),
            username: "PDBADMIN".to_owned(),
            password_env: default_password_env(),
            pool,
            tls: OracleTlsConfig::default(),
        },
        limits,
        scheduling: SchedulingConfig::default(),
        retry: RetryConfig::default(),
        resource_attributes: NameMap::new(),
        queries,
    }
}

/// Scenario: Oracle configuration declares one named query and omits optional limits.
/// Guarantees: bounded shared and Oracle-specific defaults are applied.
#[test]
fn config_applies_bounded_defaults() {
    let defaults = OraclePoolConfig::default();
    let config = OracleReceiverConfig::new(test_config(
        defaults.max_connections,
        LimitsConfig::default().max_concurrent_queries,
    ))
    .expect("test config should validate");
    assert_eq!(config.inner.database.password_env, "ORACLE_PWD");
    assert_eq!(config.inner.limits.max_batch_rows, 1_000);
    assert_eq!(config.inner.database.pool.max_connections, 1);
    assert_eq!(config.inner.queries.len(), 1);
}

/// Scenario: receiver concurrency exceeds the bounded Oracle worker pool.
/// Guarantees: semantic validation rejects a configuration that cannot honor admission limits.
#[test]
fn config_rejects_concurrency_above_pool_limit() {
    let result = OracleReceiverConfig::new(test_config(1, 2));
    assert!(result.is_err());
}

/// Scenario: connection settings are empty or the pool cannot hold its sessions.
/// Guarantees: each rule has its own message.
#[test]
fn connection_settings_are_required() {
    let mut config = test_config(1, 1);
    config.database.username = "  ".to_owned();
    assert_eq!(
        OracleReceiverConfig::new(config).err().expect("username"),
        "database.username must not be empty"
    );
    let mut config = test_config(1, 1);
    config.database.pool.min_connections = 2;
    assert_eq!(
        OracleReceiverConfig::new(config).err().expect("pool"),
        "database.pool.min_connections must not exceed max_connections"
    );
    assert_eq!(
        require_single_core(2).expect_err("cores"),
        "the Oracle receiver requires a single-core pipeline"
    );
}

fn query(max_rows: usize, fetch: usize, bytes: u64) -> CompiledQuery {
    let watermark = WatermarkConfig::Composite {
        timestamp: TimestampWatermark {
            column: "EVENT_TS".to_owned(),
            bind: "last_timestamp".to_owned(),
            initial: "1970-01-01 00:00:00".to_owned(),
            timezone: "UTC".to_owned(),
        },
        tie_breaker: TieBreakerWatermark {
            column: "EVENT_ID".to_owned(),
            bind: "last_tie_breaker".to_owned(),
            initial: 0,
        },
    };
    CompiledQuery::compile(
        "SELECT 1 FROM DUAL".to_owned(),
        PollingConfig {
            interval: Duration::from_secs(60),
            timeout: Duration::from_secs(30),
            fetch_size_rows: fetch,
            max_rows_per_poll: max_rows,
            max_batch_bytes: bytes,
            catch_up: CatchUpConfig::default(),
        },
        &watermark,
        database_receiver::polling::OutputConfig {
            timestamp_column: None,
            validation_columns: Vec::new(),
        },
    )
    .expect("bounded query")
}

/// Scenario: the fetch buffer is limited by rows, by fetch size, and by bytes.
/// Guarantees: the smallest limit wins and one row is always fetched.
#[test]
fn fetch_buffers_are_bounded() {
    let narrow = vec![OracleType::Boolean];
    let wide = vec![OracleType::NVarchar2(4_000)];
    assert_eq!(bounded_fetch_array_size(&narrow, &query(200, 100, 10_000_000)), 100);
    assert_eq!(bounded_fetch_array_size(&narrow, &query(50, 50, 10_000_000)), 50);
    assert_eq!(bounded_fetch_array_size(&wide, &query(200, 100, 1)), 1);
    let some = bounded_fetch_array_size(&wide, &query(200, 100, 160_000));
    assert!(some >= 9 && some <= 10, "{some}");
}

/// Scenario: a page is read under a decode plan and a byte budget.
/// Guarantees: rows join until the budget is used, a changed result is refused, and a row that
/// fits no page fails the poll.
#[test]
fn pages_follow_their_plan() {
    let described = columns(OracleType::Date, OracleType::Int64);
    let plan = query(10, 5, 1_000_000);
    let decode = match DecodePlan::prepare(&described, &plan) {
        Ok(decode) => decode,
        Err(error) => panic!("{}", error.describe()),
    };
    assert_eq!(decode.cursor_indices(), (1, 2));
    assert_eq!(decode.fetch_rows(), 5);
    let (metadata, types) = result_metadata(&described).expect("metadata");
    assert!(metadata_matches(&described, &metadata, &types));
    let changed = columns(OracleType::Timestamp(6), OracleType::Int64);
    assert!(matches!(
        decode.begin_page(&changed, &plan),
        Err(OracleAdapterError::ResultMetadataChanged)
    ));

    let ts = parse_cursor_timestamp("2026-01-01 00:00:00").expect("timestamp");
    let values = || {
        vec![
            NativeValue::Text("payload".to_owned()),
            NativeValue::Timestamp(ts),
            NativeValue::Int64(7),
        ]
    };
    let mut page = match decode.begin_page(&described, &plan) {
        Ok(page) => page,
        Err(_) => panic!("page"),
    };
    assert!(page.wants_row());
    assert!(page.accept(values(), Some(ts), Some(7), &watermark()).expect("row joins"));
    assert!(matches!(
        page.accept(values(), None, Some(7), &watermark()),
        Err(OracleAdapterError::NullCursorValue(column)) if column == "EVENT_TS"
    ));
    assert!(matches!(
        page.accept(values(), Some(ts), None, &watermark()),
        Err(OracleAdapterError::NullCursorValue(column)) if column == "EVENT_ID"
    ));
    page.end();
    assert!(!page.wants_row());
    let read = page.finish();
    assert_eq!(read.rows.len(), 1);
    assert_eq!(read.rows[0].cursor.timestamp, "2026-01-01 00:00:00");
    assert_eq!(read.rows[0].cursor.tie_breaker, 7);
    assert_eq!(read.columns.len(), 3);

    let tiny = query(10, 5, 50);
    let mut page = match decode.begin_page(&described, &tiny) {
        Ok(page) => page,
        Err(_) => panic!("page"),
    };
    assert!(matches!(
        page.accept(values(), Some(ts), Some(7), &watermark()),
        Err(OracleAdapterError::NormalizedByteLimit { limit: 50, .. })
    ));
}

/// Scenario: connection settings are shown in diagnostics.
/// Guarantees: everything but the connect string is shown.
#[test]
fn descriptions_show_the_connection_settings() {
    let mut connection = OracleConnectionConfig {
        connect_string: "tcps://private:2484/DB".to_owned(),
        username: "READER".to_owned(),
        password_env: default_password_env(),
        pool: OraclePoolConfig {
            min_connections: 1,
            max_connections: 4,
            max_connection_lifetime: Duration::from_secs(1800),
        },
        tls: OracleTlsConfig {
            mode: OracleTlsMode::VerifyFull,
            wallet_location: Some("/opt/wallet".to_owned()),
        },
    };
    assert_eq!(
        connection.describe(),
        "OracleConnectionConfig { connect_string: <redacted>, username: READER, \
         password_env: ORACLE_PWD, min_connections: 1, max_connections: 4, \
         max_connection_lifetime: 1800s, tls: verify_full, wallet_location: /opt/wallet }"
    );
    connection.tls = OracleTlsConfig::default();
    assert!(connection.describe().ends_with("tls: disabled, wallet_location: none }"));
}
