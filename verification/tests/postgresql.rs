use database_receiver::database::receiver::ReceiverErrorKind;
use database_receiver::database::row::CellValue;
use database_receiver::polling::{
    CatchUpConfig, CheckpointConfig, CompositeCursor, CompositeWatermark, OnNack,
    TieBreakerWatermark, TimestampWatermark, WatermarkConfig,
};
use database_receiver::postgresql::config::{
    default_bytes, default_fetch, default_interval, default_port, default_rows, default_timeout,
    AuthenticationConfig, ConnectionConfig, PostgreSqlConfig, QueryConfig, RawConfig, TlsConfig,
};
use database_receiver::postgresql::credential::secret;
use database_receiver::postgresql::error::PgError;
use database_receiver::postgresql::identity::{identity_text, StreamIdentity};
use database_receiver::postgresql::metadata::{is_cursor_column, metadata, DescribedColumn};
use database_receiver::postgresql::page::RawCell;
use database_receiver::postgresql::parser::{read_statements, validate_sql};
use database_receiver::postgresql::session::{
    begin_cleanup, classify_error, continue_cleanup, require_single_core, statement_timeout,
    CleanupStep, SessionState, Start, StepReply,
};
use database_receiver::postgresql::timestamp::parse_timestamp;
use database_receiver::postgresql::trust::{all_usable, trusted_roots};
use database_receiver::postgresql::value::{decode, PgType};
use database_receiver::time::Duration;

fn watermark() -> WatermarkConfig {
    WatermarkConfig::Composite {
        timestamp: TimestampWatermark {
            column: "event_ts".to_owned(),
            bind: "last_timestamp".to_owned(),
            initial: "2026-01-01T00:00:00Z".to_owned(),
            timezone: "UTC".to_owned(),
        },
        tie_breaker: TieBreakerWatermark {
            column: "event_id".to_owned(),
            bind: "last_id".to_owned(),
            initial: 0,
        },
    }
}

fn starting_at(initial: &str) -> WatermarkConfig {
    let WatermarkConfig::Composite { mut timestamp, tie_breaker } = watermark();
    timestamp.initial = initial.to_owned();
    WatermarkConfig::Composite { timestamp, tie_breaker }
}

fn configuration() -> RawConfig {
    RawConfig {
        source_id: "audit".to_owned(),
        connection: ConnectionConfig {
            host: "localhost".to_owned(),
            port: default_port(),
            database: "events".to_owned(),
            tls: TlsConfig { ca_file: "ca.pem".to_owned() },
        },
        authentication: AuthenticationConfig {
            username_file: "username".to_owned(),
            password_file: "password".to_owned(),
        },
        query: QueryConfig {
            statement: "SELECT event_ts, event_id, payload FROM events WHERE (event_ts > $1 OR (event_ts = $1 AND event_id > $2)) ORDER BY event_ts ASC, event_id ASC".to_owned(),
            interval: default_interval(),
            timeout: default_timeout(),
            fetch_size_rows: default_fetch(),
            max_rows_per_poll: default_rows(),
            max_batch_bytes: default_bytes(),
            catch_up: CatchUpConfig::default(),
        },
        watermark: watermark(),
        checkpoint: CheckpointConfig {
            directory: "state".to_owned(),
            on_nack: OnNack::Rewind,
            nack_backoff: Duration::from_secs(1),
            max_consecutive_failures: 3,
        },
    }
}

/// Scenario: Operational knobs are omitted or supplied with their defaults.
/// Guarantees: Defaults are one minute, thirty seconds and 300 rows without changing stream identity.
#[test]
fn defaults_and_fingerprint() {
    let baseline = PostgreSqlConfig::compile(configuration()).expect("valid");
    assert_eq!(baseline.query.interval().as_secs(), 60);
    assert_eq!(baseline.query.timeout().as_secs(), 30);
    assert_eq!(baseline.query.fetch_size_rows(), 300);
    let mut explicit = configuration();
    explicit.query.interval = Duration::from_secs(60);
    explicit.query.timeout = Duration::from_secs(30);
    explicit.query.fetch_size_rows = 300;
    explicit.authentication.password_file = "rotated-password".to_owned();
    assert_eq!(
        baseline.fingerprint,
        PostgreSqlConfig::compile(explicit).expect("explicit").fingerprint
    );
    let mut other = configuration();
    other.authentication.password_file = "rotated-password".to_owned();
    other.connection.database = "other".to_owned();
    assert_ne!(
        baseline.fingerprint,
        PostgreSqlConfig::compile(other).expect("other").fingerprint
    );
}

/// Scenario: SQL attempts multiple statements, cursor bypasses, row locks, invalid ordering or subqueries.
/// Guarantees: Invalid statements fail before connecting and parser errors do not expose customer SQL.
#[test]
fn rejects_unsafe_or_non_incremental_sql() {
    for sql in [
        "DELETE FROM events",
        "SELECT 1; DELETE FROM events",
        "SELECT event_ts, event_id FROM events WHERE event_ts > $1 OR event_id > $2 ORDER BY event_ts, event_id",
        "SELECT event_ts, event_id FROM events WHERE (event_ts > $1 OR (event_ts = $1 AND event_id > $2)) OR true ORDER BY event_ts, event_id",
        "SELECT event_ts, event_id FROM events WHERE (event_ts > $1 OR (event_ts = $1 AND event_id > $2)) ORDER BY event_ts DESC, event_id",
        "SELECT event_ts, event_id FROM events WHERE (event_ts > $1 OR (event_ts = $1 AND event_id > $2)) ORDER BY event_ts, event_id FOR UPDATE",
        "SELECT event_ts, event_id FROM events WHERE (event_ts > $1 OR (event_ts = $1 AND event_id > $2)) ORDER BY event_ts, event_id LIMIT 1",
        "SELECT (SELECT 1), event_ts, event_id FROM events WHERE (event_ts > $1 OR (event_ts = $1 AND event_id > $2)) ORDER BY event_ts, event_id",
        "SELECT PRIVATE_SQL_SENTINEL broken",
        "SELECT payload AS event_ts, event_id FROM events WHERE (event_ts > $1 OR (event_ts = $1 AND event_id > $2)) ORDER BY event_ts, event_id",
        "SELECT event_ts, event_id INTO stolen FROM events WHERE (event_ts > $1 OR (event_ts = $1 AND event_id > $2)) ORDER BY event_ts, event_id",
        "SELECT event_ts, event_id FROM events WHERE (event_ts > $1 OR (event_ts = $1 AND event_id > $2)) AND event_id > $3 ORDER BY event_ts, event_id",
        "SELECT d.* FROM events e INNER JOIN details d ON d.event_id = e.event_id WHERE (e.event_ts > $1 OR (e.event_ts = $1 AND e.event_id > $2)) ORDER BY e.event_ts, e.event_id",
    ] {
        let mut config = configuration();
        config.query.statement = sql.to_owned();
        let error = match PostgreSqlConfig::compile(config) {
            Ok(_) => panic!("accepted forbidden SQL"),
            Err(error) => error,
        };
        assert!(!error.message.contains("PRIVATE_SQL_SENTINEL"));
    }
}

/// Scenario: The same starting instant uses another offset and operational/CA settings change.
/// Guarantees: Equivalent stream identity remains resumable while a changed source identity is not.
#[test]
fn fingerprint_tracks_semantics_not_performance_or_trust_files() {
    let baseline = PostgreSqlConfig::compile(configuration()).expect("baseline");
    let changed = || {
        let mut changed = configuration();
        changed.watermark = starting_at("2026-01-01T02:00:00+02:00");
        changed.connection.tls.ca_file = "rotated-ca.pem".to_owned();
        changed.query.interval = Duration::from_secs(90);
        changed.query.fetch_size_rows = 50;
        changed
    };
    assert_eq!(
        baseline.fingerprint,
        PostgreSqlConfig::compile(changed()).expect("equivalent").fingerprint
    );
    let mut moved = changed();
    moved.source_id = "different-stream".to_owned();
    assert_ne!(
        baseline.fingerprint,
        PostgreSqlConfig::compile(moved).expect("new identity").fingerprint
    );
}

/// Scenario: A query has comments and an extra AND filter around the full keyset expression.
/// Guarantees: Parsed validation handles syntax rather than substring matching and preserves the bound.
#[test]
fn accepts_filters_comments_and_inner_joins() {
    let mut config = configuration();
    config.query.statement = "/* operator query */ SELECT e.event_ts, e.event_id, d.payload FROM events e INNER JOIN details d ON d.id = e.event_id WHERE (e.event_ts > $1 OR (e.event_ts = $1 AND e.event_id > $2)) AND d.enabled = true ORDER BY e.event_ts, e.event_id".to_owned();
    assert!(PostgreSqlConfig::compile(config).is_ok());
}

fn refused(change: impl FnOnce(&mut RawConfig)) -> &'static str {
    let mut config = configuration();
    change(&mut config);
    match PostgreSqlConfig::compile(config) {
        Ok(_) => panic!("invalid configuration accepted"),
        Err(error) => error.message,
    }
}

/// Scenario: one setting after another is out of its bounds.
/// Guarantees: each rule has its own message, and no message echoes what was configured.
#[test]
fn configuration_rules_are_told_apart() {
    assert_eq!(
        refused(|config| config.source_id = "x".repeat(257)),
        "source_id must contain 1..=256 bytes"
    );
    for host in ["", "a b", "/run/socket", "h?x", "a=b"] {
        assert_eq!(
            refused(|config| config.connection.host = host.to_owned()),
            "connection requires a hostname, nonzero port and database"
        );
    }
    assert_eq!(
        refused(|config| config.connection.tls.ca_file = String::new()),
        "CA and credential file paths must not be empty"
    );
    for interval in [Duration::from_secs(59), Duration::from_millis(60_500)] {
        assert_eq!(
            refused(|config| config.query.interval = interval),
            "query.interval must be 1m..=24h in whole seconds"
        );
    }
    for timeout in [Duration::from_millis(500), Duration::from_secs(301)] {
        assert_eq!(
            refused(|config| config.query.timeout = timeout),
            "query.timeout must be 1s..=5m in whole seconds"
        );
    }
    assert_eq!(
        refused(|config| config.watermark = starting_at("2026-01-01T00:00:00.000000001Z")),
        "PostgreSQL timestamps require microsecond precision"
    );
    assert_eq!(
        refused(|config| config.watermark = starting_at("2026-01-01 00:00:00")),
        "timestamp must be an RFC3339 timestamp with an explicit offset"
    );
    assert_eq!(
        refused(|config| config.query.fetch_size_rows = 0),
        "invalid polling, output or checkpoint configuration"
    );
    assert_eq!(
        refused(|config| config.query.statement = "x".repeat(64 * 1024 + 1)),
        "query.statement exceeds 64 KiB"
    );
}

fn checked(sql: &str) -> Result<String, &'static str> {
    validate_sql(sql, &watermark()).map_err(|error| error.message)
}

/// Scenario: statements break one rule each.
/// Guarantees: the rule is named, and an accepted statement comes back in canonical form.
#[test]
fn statement_rules_are_told_apart() {
    let bound = "(event_ts > $1 OR (event_ts = $1 AND event_id > $2))";
    let order = "ORDER BY event_ts, event_id";
    for (sql, message) in [
        ("SELECT".to_owned(), "query.statement is not valid supported PostgreSQL SQL"),
        ("SELECT 1; SELECT 2".to_owned(), "exactly one SELECT is required"),
        ("DELETE FROM events".to_owned(), "only SELECT queries are supported"),
        (
            format!("SELECT 1 UNION SELECT 2 {order}"),
            "set operations are not supported",
        ),
        (
            format!("SELECT DISTINCT event_ts, event_id FROM events WHERE {bound} {order}"),
            "unsupported query shape, bind, row lock or row limit",
        ),
        (
            format!("SELECT event_ts, event_id FROM events, other WHERE {bound} {order}"),
            "only tables and inner joins are supported",
        ),
        (
            format!("SELECT event_ts, event_id FROM events LEFT JOIN other ON true WHERE {bound} {order}"),
            "only tables and inner joins are supported",
        ),
        (
            format!("SELECT event_ts, event_id FROM events WHERE {bound}"),
            "cursor ORDER BY is required",
        ),
        (
            format!("SELECT event_ts, event_id FROM events WHERE {bound} ORDER BY event_id, event_ts"),
            "ORDER BY must be ascending timestamp then tie-breaker",
        ),
        (
            format!("SELECT event_ts, event_id FROM events WHERE event_ts > $1 {order}"),
            "WHERE must enforce timestamp > $1 OR (timestamp = $1 AND tie_breaker > $2)",
        ),
        (
            format!("SELECT event_id FROM events WHERE {bound} {order}"),
            "cursor columns must be selected",
        ),
        (
            format!("SELECT payload AS event_ts, event_id FROM events WHERE {bound} {order}"),
            "cursor projection aliases cannot change cursor identity",
        ),
        (
            format!("SELECT other.event_ts, event_id FROM events WHERE {bound} {order}"),
            "cursor projection must match its ordering expression",
        ),
    ] {
        assert_eq!(checked(&sql), Err(message), "{sql}");
    }
    assert_eq!(
        checked(&format!("select * from events where ({bound}) and payload is not null {order} ;"))
            .expect("wildcard"),
        format!("SELECT * FROM events WHERE ({bound}) AND payload IS NOT NULL {order}")
    );
    let qualified = "(e.event_ts > $1 OR (e.event_ts = $1 AND e.event_id > $2))";
    assert!(checked(&format!(
        "SELECT e.* FROM events e JOIN other o ON o.id = e.event_id WHERE {qualified} ORDER BY e.event_ts, e.event_id"
    ))
    .is_ok());
    assert!(read_statements("SELECT 1; SELECT 2").expect("statements").len() == 2);
}

/// Scenario: an identity is written for its fingerprint.
/// Guarantees: the text is compact JSON with ordered names, and the host's case does not matter.
#[test]
fn identity_is_written_in_one_line() {
    let identity = StreamIdentity {
        source: "a\"b".to_owned(),
        host: "LocalHost".to_owned(),
        port: 5432,
        database: "d".to_owned(),
        sql: "s".to_owned(),
        timestamp_column: "t".to_owned(),
        id_column: "i".to_owned(),
        initial_timestamp: "2026-01-01T00:00:00.000000Z".to_owned(),
        initial_tie_breaker: -1,
    };
    assert_eq!(
        identity_text(&identity),
        "{\"adapter\":\"postgresql\",\"database\":\"d\",\"host\":\"localhost\",\"id_column\":\"i\",\
         \"initial\":{\"tie_breaker\":-1,\"timestamp\":\"2026-01-01T00:00:00.000000Z\"},\
         \"mapping\":\"typed-body\",\"port\":5432,\"source\":\"a\\\"b\",\"sql\":\"s\",\
         \"timestamp_column\":\"t\"}"
    );
    let fingerprint = PostgreSqlConfig::compile(configuration()).expect("valid").fingerprint;
    assert_eq!(fingerprint.len(), 64);
    assert!(fingerprint.chars().all(|c| c.is_ascii_digit() || ('a'..='f').contains(&c)));
}

/// Scenario: mounted credentials have line endings, NULs, broken text, or no text.
/// Guarantees: one line ending is dropped and everything else is refused.
#[test]
fn credentials_are_one_line() {
    assert_eq!(secret(b"user\r\n").expect("credential").disclose(), "user");
    assert_eq!(secret(b"user\n\n").expect("credential").disclose(), "user\n");
    for bytes in [b"".to_vec(), b"\n".to_vec(), b"a\0b".to_vec(), vec![0xff], vec![b'x'; 4097]] {
        assert!(matches!(secret(&bytes), Err(PgError::Credentials)));
    }
    assert!(secret(&vec![b'x'; 4096]).is_ok());
}

fn described(name: &str, ty: PgType, not_null: Option<bool>) -> DescribedColumn {
    DescribedColumn {
        name: name.to_owned(),
        ty,
        source_type: format!("{ty:?}"),
        not_null,
    }
}

fn plan_watermark() -> CompositeWatermark {
    CompositeWatermark {
        timestamp_column: "event_ts".to_owned(),
        timestamp_bind: "a".to_owned(),
        tie_breaker_column: "event_id".to_owned(),
        tie_breaker_bind: "b".to_owned(),
        initial: CompositeCursor::new("2026-01-01T00:00:00Z".to_owned(), 0),
    }
}

/// Scenario: prepared statements return usable and unusable columns.
/// Guarantees: cursor columns are found, known not to be NULL, and of an exact type.
#[test]
fn result_columns_are_validated() {
    let good = || {
        vec![
            described("event_id", PgType::Int8, Some(true)),
            described("payload", PgType::Jsonb, None),
            described("event_ts", PgType::TimestampTz, Some(true)),
        ]
    };
    let (columns, indices) = metadata(&good(), &plan_watermark()).expect("columns");
    assert_eq!(indices, (2, 0));
    assert_eq!(
        columns.iter().map(|column| column.nullable).collect::<Vec<_>>(),
        vec![false, true, false]
    );
    assert!(is_cursor_column("event_ts", &plan_watermark()));
    assert!(!is_cursor_column("payload", &plan_watermark()));
    for (index, column, error) in [
        (0, described("event_id", PgType::Int8, Some(false)), PgError::Metadata),
        (0, described("event_id", PgType::Int8, None), PgError::Metadata),
        (0, described("event_id", PgType::Numeric, Some(true)), PgError::Metadata),
        (2, described("event_ts", PgType::Date, Some(true)), PgError::Metadata),
        (1, described("EVENT_ID", PgType::Text, None), PgError::Metadata),
        (1, described("payload", PgType::Other, None), PgError::UnsupportedType),
        (2, described("other", PgType::Text, None), PgError::Metadata),
    ] {
        let mut columns = good();
        columns[index] = column;
        assert_eq!(metadata(&columns, &plan_watermark()).err(), Some(error));
    }
}

/// Scenario: failed operations are cleaned up with every reply a server can give.
/// Guarantees: only a confirmed rollback leaves the original failure, and unconfirmed cleanup is
/// remembered until shutdown.
#[test]
fn cleanup_is_confirmed_or_reported() {
    assert_eq!(begin_cleanup(PgError::Timeout), CleanupStep::Cancel);
    assert_eq!(begin_cleanup(PgError::Query), CleanupStep::Rollback);
    let mut step = begin_cleanup(PgError::Cancelled);
    for reply in [StepReply::Done, StepReply::Canceled, StepReply::Done] {
        step = continue_cleanup(step, reply);
    }
    assert_eq!(step, CleanupStep::Confirmed);
    assert_eq!(
        continue_cleanup(CleanupStep::RollbackAgain, StepReply::Canceled),
        CleanupStep::Unconfirmed
    );

    let config = PostgreSqlConfig::compile(configuration()).expect("valid");
    let mut session = SessionState::new(config.query.sql().to_owned());
    assert_eq!(session.start(&config.query).expect("start"), Start::Connect);
    session.connected();
    assert_eq!(session.start(&config.query).expect("start"), Start::Ready);
    assert_eq!(session.settle(PgError::Query, CleanupStep::Confirmed), PgError::Query);
    assert_eq!(session.settle(PgError::Query, CleanupStep::Unconfirmed), PgError::Cleanup);
    assert_eq!(session.close(true), Err(PgError::Cleanup));
    let mut other = SessionState::new("SELECT 1".to_owned());
    assert_eq!(other.start(&config.query), Err(PgError::NotValidated));
    assert_eq!(other.close(false), Ok(()));
    assert_eq!(classify_error(&PgError::Connect), ReceiverErrorKind::Connect);
    assert_eq!(classify_error(&PgError::Conversion), ReceiverErrorKind::Transport);
    assert_eq!(
        statement_timeout(&Duration::from_millis(1_500)),
        "SET LOCAL statement_timeout = 1500"
    );
    assert!(require_single_core(1).is_ok());
    assert!(require_single_core(2).is_err());
}

fn micros(value: i64) -> Vec<u8> {
    value.to_be_bytes().to_vec()
}

/// Scenario: a page is read row by row after a committed cursor.
/// Guarantees: rows advance strictly, their cursors resume exactly, and a short fetch ends the page.
#[test]
fn pages_advance_and_resume() {
    let config = PostgreSqlConfig::compile(configuration()).expect("valid");
    let mut session = SessionState::new(config.query.sql().to_owned());
    session.connected();
    let start = config.query.watermark().initial.clone();
    assert!(matches!(
        session.begin_page(&config.query, &start),
        Err(PgError::NotValidated)
    ));
    let (columns, indices) = metadata(
        &vec![
            described("event_ts", PgType::TimestampTz, Some(true)),
            described("event_id", PgType::Int8, Some(true)),
        ],
        &plan_watermark(),
    )
    .expect("columns");
    let empty = session.validated(columns, indices);
    assert_eq!((empty.columns.len(), empty.rows.len()), (2, 0));
    let mut page = match session.begin_page(&config.query, &start) {
        Ok(page) => page,
        Err(error) => panic!("{}", error.message()),
    };
    // 2026-01-01T00:00:00Z in microseconds since 2000-01-01.
    let base: i64 = 820_540_800_000_000;
    let rows = [(base, 1i64), (base, 2), (base + 1, 1)];
    for (ts, id) in rows {
        let ts = micros(ts);
        let id = micros(id);
        let row = vec![
            RawCell { name: "event_ts", source_type: "TimestampTz", ty: PgType::TimestampTz, raw: Some(&ts) },
            RawCell { name: "event_id", source_type: "Int8", ty: PgType::Int8, raw: Some(&id) },
        ];
        assert_eq!(page.accept(&row), Ok(true));
    }
    let ts = micros(base);
    let id = micros(9);
    let stale = vec![
        RawCell { name: "event_ts", source_type: "TimestampTz", ty: PgType::TimestampTz, raw: Some(&ts) },
        RawCell { name: "event_id", source_type: "Int8", ty: PgType::Int8, raw: Some(&id) },
    ];
    assert_eq!(page.accept(&stale), Err(PgError::Cursor));
    assert_eq!(page.next_fetch(), Some(300));
    page.end_fetch(300, 3);
    assert_eq!(page.next_fetch(), None);
    let read = page.finish();
    for (row, (_, id)) in read.rows.iter().zip(rows) {
        assert_eq!(row.cursor.tie_breaker, id);
        assert!(matches!(row.row.values[1], CellValue::Int64(cell) if cell == id));
    }
    let last = &read.rows[2].cursor;
    assert_eq!(last.timestamp, "2026-01-01T00:00:00.000001Z");
    assert_eq!(last.tie_breaker, 1);
    let resumed = parse_timestamp(&last.timestamp).expect("cursor");
    assert_eq!((resumed.secs, resumed.nanos), (1_767_225_600, 1_000));
    let mut next = match session.begin_page(&config.query, last) {
        Ok(page) => page,
        Err(error) => panic!("{}", error.message()),
    };
    for (id, answer) in [(1i64, Err(PgError::Cursor)), (2, Ok(true))] {
        let ts = micros(base + 1);
        let id = micros(id);
        let row = vec![
            RawCell { name: "event_ts", source_type: "TimestampTz", ty: PgType::TimestampTz, raw: Some(&ts) },
            RawCell { name: "event_id", source_type: "Int8", ty: PgType::Int8, raw: Some(&id) },
        ];
        assert_eq!(next.accept(&row), answer);
    }
}

/// Scenario: values of several types arrive in the server's binary form.
/// Guarantees: each has its normal form, and broken or unsupported values are refused.
#[test]
fn values_decode_from_the_wire() {
    let text = |ty: PgType, raw: &[u8]| match decode(ty, Some(raw), 1_000) {
        Ok(CellValue::String(text)) => text,
        Ok(CellValue::Date(text)) => text,
        Ok(CellValue::Timestamp(text)) => text,
        Ok(CellValue::TimestampTz(text)) => text,
        Ok(CellValue::Json(text)) => text,
        Ok(CellValue::Uuid(text)) => text,
        Ok(CellValue::Interval(text)) => text,
        _ => panic!("no text"),
    };
    assert_eq!(text(PgType::Text, "grüß".as_bytes()), "grüß");
    assert_eq!(text(PgType::Date, &1i32.to_be_bytes()), "2000-01-02");
    assert_eq!(text(PgType::Timestamp, &micros(1)), "2000-01-01T00:00:00.000001Z");
    assert_eq!(text(PgType::Jsonb, b"\x01{}"), "{}");
    assert_eq!(
        text(PgType::Uuid, &[0x11; 16]),
        "11111111-1111-1111-1111-111111111111"
    );
    assert!(matches!(decode(PgType::Bool, Some(&[1]), 10), Ok(CellValue::Bool(true))));
    assert!(matches!(decode(PgType::Int2, Some(&[0xff, 0xfe]), 10), Ok(CellValue::Int64(-2))));
    assert!(matches!(
        decode(PgType::Float4, Some(&1.5f32.to_be_bytes()), 10),
        Ok(CellValue::Float64(double)) if double.bits == 1.5f64.to_bits()
    ));
    assert!(matches!(decode(PgType::Int4, None, 10), Ok(CellValue::Null)));
    assert!(matches!(decode(PgType::Text, Some(&[0xff]), 10), Err(PgError::Conversion)));
    assert!(matches!(decode(PgType::Other, Some(&[1]), 10), Err(PgError::UnsupportedType)));
    assert!(matches!(decode(PgType::Text, Some(b"too long"), 3), Err(PgError::RowTooLarge)));
}

/// Scenario: numbers, bytes, moments and intervals arrive in the server's binary form.
/// Guarantees: each keeps its exact value.
#[test]
fn numbers_and_moments_keep_their_values() {
    assert!(matches!(
        decode(PgType::Int4, Some(&(-7i32).to_be_bytes()), 10),
        Ok(CellValue::Int64(-7))
    ));
    assert!(matches!(
        decode(PgType::Int8, Some(&i64::MIN.to_be_bytes()), 10),
        Ok(CellValue::Int64(i64::MIN))
    ));
    assert!(matches!(decode(PgType::Int8, Some(&[1, 2]), 10), Err(PgError::Conversion)));
    assert!(matches!(
        decode(PgType::Float8, Some(&(-0.1f64).to_be_bytes()), 10),
        Ok(CellValue::Float64(double)) if double.bits == (-0.1f64).to_bits()
    ));
    assert!(matches!(
        decode(PgType::Float8, Some(&f64::INFINITY.to_be_bytes()), 10),
        Err(PgError::Conversion)
    ));
    assert!(matches!(
        decode(PgType::Bytea, Some(&[0, 255]), 10),
        Ok(CellValue::Bytes(bytes)) if bytes == vec![0, 255]
    ));
    assert!(matches!(
        decode(PgType::TimestampTz, Some(&micros(-1)), 10),
        Ok(CellValue::TimestampTz(text)) if text == "1999-12-31T23:59:59.999999Z"
    ));
    assert!(matches!(
        decode(PgType::Timestamp, Some(&i64::MAX.to_be_bytes()), 10),
        Err(PgError::Conversion)
    ));
    let mut interval = Vec::new();
    interval.extend_from_slice(&(-5i64).to_be_bytes());
    interval.extend_from_slice(&3i32.to_be_bytes());
    interval.extend_from_slice(&(-14i32).to_be_bytes());
    assert!(matches!(
        decode(PgType::Interval, Some(&interval), 16),
        Ok(CellValue::Interval(text)) if text == "-14 mons 3 days -5 microseconds"
    ));
    assert!(matches!(decode(PgType::Jsonb, Some(b"\x02{}"), 10), Err(PgError::Conversion)));
    assert!(matches!(decode(PgType::Uuid, Some(&[1; 15]), 16), Err(PgError::Conversion)));
}

const ROOT: &str = "\
-----BEGIN CERTIFICATE-----\n\
MIIBPjCB8aADAgECAhRoYy7S2ouD+yIj8ogDtiXLHnUxcDAFBgMrZXAwFDESMBAG\n\
A1UEAwwJdGVzdCByb290MCAXDTI2MTExNjE5MTQzNVoYDzIxMjYxMDIzMTkxNDM1\n\
WjAUMRIwEAYDVQQDDAl0ZXN0IHJvb3QwKjAFBgMrZXADIQD8Wb+4Pp3ETuPaze7Q\n\
Zc94fpQ5Xc/5NDb89GrjgdUrKqNTMFEwHQYDVR0OBBYEFNBTVQb/pGSh9Mpsh8Eh\n\
m0xEYBSPMB8GA1UdIwQYMBaAFNBTVQb/pGSh9Mpsh8Ehm0xEYBSPMA8GA1UdEwEB\n\
/wQFMAMBAf8wBQYDK2VwA0EAJ1s6WjCUWwJRl1UFPGt0Szz1b3i+WN9OHXIOquXy\n\
Z4aEMumQU85PXVM41xGaF1eQ/MIFBJ4N5/22lDZYXd3SAA==\n\
-----END CERTIFICATE-----\n\
";

/// Scenario: a CA file holds a certificate, none, a broken section, or no certificate's bytes.
/// Guarantees: each certificate comes out in DER; anything unusable fails the whole file.
#[test]
fn root_certificates_are_all_usable() {
    let roots = trusted_roots(ROOT.as_bytes()).expect("root");
    assert_eq!(roots.len(), 1);
    assert_eq!(roots[0].len(), 322);
    assert_eq!(roots[0][..4], [0x30, 0x82, 0x01, 0x3e]);
    let twice = format!("{ROOT}{ROOT}");
    assert_eq!(trusted_roots(twice.as_bytes()).expect("roots").len(), 2);
    let unfit = "-----BEGIN CERTIFICATE-----\nAAAA\n-----END CERTIFICATE-----\n";
    for pem in [
        String::new(),
        "no certificate".to_owned(),
        unfit.to_owned(),
        format!("{ROOT}{unfit}"),
        format!("{ROOT}-----BEGIN CERTIFICATE-----\n****\n-----END CERTIFICATE-----\n"),
    ] {
        assert!(matches!(trusted_roots(pem.as_bytes()), Err(PgError::Tls)), "{pem}");
    }
    assert!(all_usable(2, &vec![true, true]));
    assert!(!all_usable(2, &vec![true, false]));
    assert!(!all_usable(0, &vec![]));
}
