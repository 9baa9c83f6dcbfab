use database_receiver::oracle::config::require_single_core;
use database_receiver::oracle::connect::OracleAdapterConfig;
use database_receiver::oracle::statement::{validate_statement, words_of};
use database_receiver::oracle::stream::{OracleStreamConfig, RawStreamConfig};
use database_receiver::polling::{
    CatchUpConfig, CheckpointConfig, OnNack, PollingConfig, TieBreakerWatermark,
    TimestampWatermark, WatermarkConfig,
};
use database_receiver::postgresql::config::{default_fetch, default_interval, default_timeout};
use database_receiver::time::Duration;

const COMPOSITE_STATEMENT: &str = "SELECT AUDIT_ID, LAST_UPDATED, PAYLOAD FROM AUDIT_LOGS \
     WHERE (LAST_UPDATED > :last_timestamp \
     OR (LAST_UPDATED = :last_timestamp AND AUDIT_ID > :last_tie_breaker)) \
     ORDER BY LAST_UPDATED ASC, AUDIT_ID ASC";

fn watermark(column: &str, initial: &str, id_column: &str, id: i64) -> WatermarkConfig {
    WatermarkConfig::Composite {
        timestamp: TimestampWatermark {
            column: column.to_owned(),
            bind: "last_timestamp".to_owned(),
            initial: initial.to_owned(),
            timezone: "UTC".to_owned(),
        },
        tie_breaker: TieBreakerWatermark {
            column: id_column.to_owned(),
            bind: "last_tie_breaker".to_owned(),
            initial: id,
        },
    }
}

fn documented_config() -> RawStreamConfig {
    RawStreamConfig {
        source_id: "oracle-audit".to_owned(),
        connection: OracleAdapterConfig {
            connect_string: "database.contoso.com:1521/ORCL".to_owned(),
            instant_client_dir: "/opt/oracle/instantclient".to_owned(),
            username_file: "/var/run/secrets/oracle/oracle-audit/username".to_owned(),
            password_file: "/var/run/secrets/oracle/oracle-audit/password".to_owned(),
        },
        statement: COMPOSITE_STATEMENT.to_owned(),
        polling: PollingConfig {
            interval: Duration::from_secs(60),
            timeout: Duration::from_secs(30),
            fetch_size_rows: 300,
            max_rows_per_poll: 10000,
            max_batch_bytes: 10 * 1024 * 1024,
            catch_up: CatchUpConfig::default(),
        },
        watermark: watermark("LAST_UPDATED", "1970-01-01 00:00:00", "AUDIT_ID", 0),
        checkpoint: CheckpointConfig {
            directory: "${engine.state_dir}/oracle".to_owned(),
            on_nack: OnNack::Rewind,
            nack_backoff: Duration::from_secs(1),
            max_consecutive_failures: 5,
        },
    }
}

fn parsed(config: RawStreamConfig) -> Result<OracleStreamConfig, &'static str> {
    OracleStreamConfig::compile(config)
}

fn with_statement(statement: &str) -> RawStreamConfig {
    RawStreamConfig { statement: statement.to_owned(), ..documented_config() }
}

fn with_initial(initial: &str) -> RawStreamConfig {
    RawStreamConfig {
        watermark: watermark("LAST_UPDATED", initial, "AUDIT_ID", 0),
        ..documented_config()
    }
}

fn with_polling(change: impl Fn(&mut PollingConfig)) -> RawStreamConfig {
    let mut config = documented_config();
    change(&mut config.polling);
    config
}

/// Scenario: SQL contains all watermark comparisons but combines them incorrectly or unions rows.
/// Guarantees: Unwatermarked branches and predicates that skip timestamp ties fail before connecting.
#[test]
fn rejects_composite_predicate_lookalikes_and_set_operations() {
    for statement in [
        "SELECT AUDIT_ID, LAST_UPDATED FROM AUDIT_LOGS WHERE LAST_UPDATED > :last_timestamp AND (LAST_UPDATED = :last_timestamp OR AUDIT_ID > :last_tie_breaker) ORDER BY LAST_UPDATED ASC, AUDIT_ID ASC",
        "SELECT AUDIT_ID, LAST_UPDATED FROM AUDIT_LOGS WHERE LAST_UPDATED > :last_timestamp OR (LAST_UPDATED = :last_timestamp AND AUDIT_ID > :last_tie_breaker) OR 1 = 1 ORDER BY LAST_UPDATED ASC, AUDIT_ID ASC",
    ] {
        assert!(parsed(with_statement(statement)).is_err());
    }
    for operation in ["UNION", "UNION ALL", "INTERSECT", "MINUS", "EXCEPT"] {
        let statement = COMPOSITE_STATEMENT.replacen(
            " ORDER BY",
            &format!(
                " {operation} SELECT AUDIT_ID, LAST_UPDATED, PAYLOAD FROM AUDIT_LOGS ORDER BY"
            ),
            1,
        );
        for statement in [statement.clone(), statement.to_ascii_lowercase()] {
            assert!(parsed(with_statement(&statement)).is_err(), "{statement}");
        }
    }
}

/// Scenario: Native Oracle configuration supplies only the original max_batch_bytes setting.
/// Guarantees: It parses without an additional field and uses that limit for both row storage and encoding.
#[test]
fn uses_one_byte_limit_for_rows_and_encoding() {
    let config = parsed(documented_config()).ok().expect("configuration");
    assert_eq!(config.query.max_batch_bytes(), 10 * 1024 * 1024);
    assert_eq!(config.query.max_normalized_bytes(), config.query.max_batch_bytes());
}

/// Scenario: Oracle configuration omits or overrides the shared catch-up budgets.
/// Guarantees: Shared defaults are preserved and explicit native settings reach the query plan.
#[test]
fn forwards_catch_up_configuration() {
    let defaults = parsed(documented_config()).ok().expect("defaults").query.catch_up();
    assert_eq!(defaults.max_pages, 32);
    assert_eq!(defaults.max_duration, Duration::from_secs(10));
    let configured = parsed(with_polling(|polling| {
        polling.catch_up = CatchUpConfig { max_pages: 1, max_duration: Duration::from_secs(2) };
    }))
    .ok()
    .expect("override")
    .query
    .catch_up();
    assert_eq!(configured.max_pages, 1);
    assert_eq!(configured.max_duration, Duration::from_secs(2));
}

/// Scenario: Oracle configuration supplies an invalid shared catch-up page budget.
/// Guarantees: The vendor wrapper applies shared validation instead of bypassing it.
#[test]
fn rejects_invalid_catch_up_budget() {
    for pages in [0, 1025] {
        assert!(parsed(with_polling(|polling| polling.catch_up.max_pages = pages)).is_err());
    }
}

/// Scenario: Oracle accepts date-only and timezone-naive ISO initial timestamps.
/// Guarantees: Initial cursors are normalized to the same text representation as fetched cursors.
#[test]
fn normalizes_all_accepted_initial_timestamp_spellings() {
    for initial in ["1970-01-01T00:00:00", "1970-01-01"] {
        let plan = parsed(with_initial(initial)).ok().expect("Oracle timestamp").query;
        assert!(plan.watermark().initial.timestamp.starts_with("1970-01-01 00:00:00"));
    }
}

/// Scenario: The engine attempts to create the unpartitioned Oracle receiver on two cores.
/// Guarantees: Factory validation rejects duplicate per-core pollers before acquiring a lease.
#[test]
fn factory_rejects_multi_core_placement() {
    assert!(require_single_core(2).err().expect("two cores").contains("single-core"));
    assert!(require_single_core(1).is_ok());
}

/// Scenario: The receiver loads the complete documented composite configuration.
/// Guarantees: The public schema builds a query plan whose cursor binds, checkpoint policy, and
/// source identity are all present, so the documented example remains runnable.
#[test]
fn accepts_the_documented_composite_configuration() {
    let config = parsed(documented_config()).ok().expect("configuration");
    assert_eq!(config.source_id, "oracle-audit");
    assert_eq!(config.checkpoint.on_nack, OnNack::Rewind);
    assert_eq!(config.checkpoint.nack_backoff, Duration::from_secs(1));
    let query = config.query;
    assert_eq!(query.watermark().timestamp_bind, "last_timestamp");
    assert_eq!(query.watermark().tie_breaker_bind, "last_tie_breaker");
    assert_eq!(query.watermark().initial.tie_breaker, 0);
}

/// Scenario: Collection interval, timeout and fetch size are omitted or explicitly set to their defaults.
/// Guarantees: Both configurations use 60s/30s/300 rows and preserve the same checkpoint compatibility fingerprint.
#[test]
fn collection_defaults_are_applied_without_changing_checkpoint_identity() {
    let defaults = parsed(with_polling(|polling| {
        polling.interval = default_interval();
        polling.timeout = default_timeout();
        polling.fetch_size_rows = default_fetch();
    }))
    .ok()
    .expect("default collection settings");
    let configured = parsed(documented_config()).ok().expect("explicit default settings");
    for config in [&defaults, &configured] {
        assert_eq!(config.query.interval(), Duration::from_secs(60));
        assert_eq!(config.query.timeout(), Duration::from_secs(30));
        assert_eq!(config.query.fetch_size_rows(), 300);
    }
    assert_eq!(defaults.fingerprint, configured.fingerprint);
    let tuned = parsed(with_polling(|polling| polling.fetch_size_rows = 123))
        .ok()
        .expect("explicit row count");
    assert_eq!(tuned.query.fetch_size_rows(), 123);
    assert_eq!(tuned.fingerprint, configured.fingerprint);
}

/// Scenario: The interval uses supported endpoints or fractional minutes equivalent to whole seconds.
/// Guarantees: Values from one minute through 24 hours are preserved exactly without rounding.
#[test]
fn collection_interval_accepts_whole_seconds_and_fractional_minutes() {
    for (value, seconds) in [
        (Duration::from_secs(60), 60),
        (Duration::from_millis(90_000), 90),
        (Duration::from_secs(61), 61),
        (Duration::from_secs(24 * 3600), 86400),
    ] {
        let config = parsed(with_polling(|polling| polling.interval = value));
        assert_eq!(
            config.ok().expect("valid interval").query.interval(),
            Duration::from_secs(seconds)
        );
    }
}

/// Scenario: Collection settings are beyond their bounds or no whole seconds.
/// Guarantees: Invalid values fail configuration instead of receiving defaults or silent rounding.
#[test]
fn collection_settings_have_bounds() {
    for interval in [0, 59_000, 60_500, 86_401_000] {
        let config = with_polling(|polling| polling.interval = Duration::from_millis(interval));
        assert_eq!(
            parsed(config).err(),
            Some("query.interval must be 1m..=24h in whole seconds")
        );
    }
    for timeout in [0, 500, 30_500, 301_000] {
        let config = with_polling(|polling| polling.timeout = Duration::from_millis(timeout));
        assert_eq!(
            parsed(config).err(),
            Some("query.timeout must be 1s..=5m in whole seconds")
        );
    }
    for fetch in [0, 10001] {
        assert!(parsed(with_polling(|polling| polling.fetch_size_rows = fetch)).is_err());
    }
    assert!(parsed(with_polling(|polling| polling.max_rows_per_poll = 100)).is_err());
}

/// Scenario: A statement omits a bind, or references one only inside a literal or as a prefix.
/// Guarantees: Both committed cursor components must appear as real bind markers, so a query
/// cannot silently ignore the checkpoint and re-read the full table every poll.
#[test]
fn requires_both_cursor_binds_as_real_markers() {
    let missing_bind = "SELECT AUDIT_ID, LAST_UPDATED FROM AUDIT_LOGS \
         WHERE LAST_UPDATED > :last_timestamp \
         ORDER BY LAST_UPDATED ASC, AUDIT_ID ASC";
    assert!(parsed(with_statement(missing_bind)).is_err());

    let prefix_only = "SELECT AUDIT_ID, LAST_UPDATED FROM AUDIT_LOGS \
         WHERE LAST_UPDATED > :last_timestamp_extra AND AUDIT_ID > :last_tie_breaker \
         ORDER BY LAST_UPDATED ASC, AUDIT_ID ASC";
    assert!(parsed(with_statement(prefix_only)).is_err());

    let literal_only = "SELECT AUDIT_ID, LAST_UPDATED FROM AUDIT_LOGS \
         WHERE ':last_timestamp' = ':last_timestamp' AND AUDIT_ID > :last_tie_breaker \
         ORDER BY LAST_UPDATED ASC, AUDIT_ID ASC";
    assert!(parsed(with_statement(literal_only)).is_err());
}

/// Scenario: Both bind names exist, but the query does not use the strict composite predicate.
/// Guarantees: A full-table or inclusive-boundary query is rejected before polling so an ACKed
/// page cannot repeatedly commit the same cursor.
#[test]
fn requires_the_strict_composite_predicate() {
    let no_predicate = "SELECT AUDIT_ID, LAST_UPDATED FROM AUDIT_LOGS \
         WHERE :last_timestamp IS NOT NULL AND :last_tie_breaker IS NOT NULL \
         ORDER BY LAST_UPDATED ASC, AUDIT_ID ASC";
    assert!(parsed(with_statement(no_predicate)).is_err());

    let inclusive = "SELECT AUDIT_ID, LAST_UPDATED FROM AUDIT_LOGS \
         WHERE (LAST_UPDATED >= :last_timestamp OR (LAST_UPDATED = :last_timestamp \
         AND AUDIT_ID > :last_tie_breaker)) ORDER BY LAST_UPDATED ASC, AUDIT_ID ASC";
    assert!(parsed(with_statement(inclusive)).is_err());
}

/// Scenario: A cursor column is configured with quoted, qualified, or unsafe identifier syntax.
/// Guarantees: Only plain Oracle identifiers can participate in validated paging SQL, preventing
/// configuration text from becoming executable SQL syntax.
#[test]
fn rejects_unsafe_cursor_identifiers() {
    for column in ["AUDIT.ID", "\"AUDIT_ID\"", "AUDIT ID", "AUDIT_ID;DELETE"] {
        let config = RawStreamConfig {
            watermark: watermark("LAST_UPDATED", "1970-01-01 00:00:00", column, 0),
            ..documented_config()
        };
        assert!(parsed(config).is_err(), "unsafe identifier '{column}'");
    }
}

/// Scenario: The configured initial timestamp cannot be represented by Oracle's timestamp type.
/// Guarantees: Invalid initial state fails configuration instead of surfacing only after the
/// receiver has acquired its source lease and started database work.
#[test]
fn rejects_invalid_initial_timestamp() {
    assert!(parsed(with_initial("not-a-timestamp")).is_err());
}

/// Scenario: Initial timestamp components overflow or narrow in the native parser, or exceed its precision.
/// Guarantees: Configuration returns a field-specific error without panicking or changing the initial position.
#[test]
fn rejects_oversized_or_wrapping_initial_timestamps() {
    for initial in [
        "9".repeat(40),
        "4294969322-01-01 00:00:00".to_owned(),
        "2026-4294967297-01 00:00:00".to_owned(),
        "2026-01-01 00:00:00.1234567890".to_owned(),
        "2026-01-01 00:00:00 +4294967297:00".to_owned(),
    ] {
        let error = parsed(with_initial(&initial)).err().expect("unsafe timestamp must fail");
        assert!(error.contains("watermark.timestamp.initial"));
    }
}

/// Scenario: Nested comparisons satisfy token checks but the only top-level WHERE occurs after ORDER BY.
/// Guarantees: Invalid clause ordering returns an error instead of panicking during predicate slicing.
#[test]
fn rejects_where_after_order_without_panicking() {
    let config = RawStreamConfig {
        watermark: watermark("WHERE", "1970-01-01 00:00:00", "AUDIT_ID", 0),
        ..with_statement(
            "SELECT (WHERE > :last_timestamp), (WHERE = :last_timestamp), \
             (AUDIT_ID > :last_tie_breaker) FROM AUDIT_LOGS \
             ORDER BY WHERE ASC, AUDIT_ID ASC",
        )
    };
    let error = parsed(config).err().expect("misordered clauses must fail");
    assert!(error.contains("WHERE predicate before ORDER BY"));
}

/// Scenario: A statement's final ordering is descending, reordered, missing, or only nested
/// inside a subquery.
/// Guarantees: The outer result must be ascending by timestamp then tie-breaker, so paging by the
/// composite cursor cannot skip rows an unordered or differently ordered result would return.
#[test]
fn requires_the_final_outer_ascending_ordering() {
    let descending = "SELECT AUDIT_ID, LAST_UPDATED FROM AUDIT_LOGS \
         WHERE LAST_UPDATED > :last_timestamp OR (LAST_UPDATED = :last_timestamp \
         AND AUDIT_ID > :last_tie_breaker) ORDER BY LAST_UPDATED DESC, AUDIT_ID ASC";
    assert!(parsed(with_statement(descending)).is_err());

    let reversed = "SELECT AUDIT_ID, LAST_UPDATED FROM AUDIT_LOGS \
         WHERE LAST_UPDATED > :last_timestamp OR (LAST_UPDATED = :last_timestamp \
         AND AUDIT_ID > :last_tie_breaker) ORDER BY AUDIT_ID ASC, LAST_UPDATED ASC";
    assert!(parsed(with_statement(reversed)).is_err());

    let missing = "SELECT AUDIT_ID, LAST_UPDATED FROM AUDIT_LOGS \
         WHERE LAST_UPDATED > :last_timestamp OR (LAST_UPDATED = :last_timestamp \
         AND AUDIT_ID > :last_tie_breaker)";
    assert!(parsed(with_statement(missing)).is_err());

    let nested_only = "SELECT AUDIT_ID, LAST_UPDATED FROM \
         (SELECT AUDIT_ID, LAST_UPDATED FROM AUDIT_LOGS WHERE LAST_UPDATED > :last_timestamp \
         OR (LAST_UPDATED = :last_timestamp AND AUDIT_ID > :last_tie_breaker) \
         ORDER BY LAST_UPDATED ASC, AUDIT_ID ASC)";
    assert!(parsed(with_statement(nested_only)).is_err());

    let nested_then_wrong_outer = "SELECT AUDIT_ID, LAST_UPDATED FROM \
         (SELECT AUDIT_ID, LAST_UPDATED FROM AUDIT_LOGS WHERE LAST_UPDATED > :last_timestamp \
         OR (LAST_UPDATED = :last_timestamp AND AUDIT_ID > :last_tie_breaker) \
         ORDER BY LAST_UPDATED ASC, AUDIT_ID ASC) ORDER BY AUDIT_ID DESC";
    assert!(parsed(with_statement(nested_then_wrong_outer)).is_err());
}

/// Scenario: A statement contains SQL comments or appends a second SELECT or DELETE.
/// Guarantees: Extra statements and comments are rejected before any database execution.
#[test]
fn rejects_comments_and_multiple_statements() {
    let commented = "SELECT AUDIT_ID, LAST_UPDATED FROM AUDIT_LOGS \
         WHERE LAST_UPDATED > :last_timestamp OR (LAST_UPDATED = :last_timestamp \
         AND AUDIT_ID > :last_tie_breaker) ORDER BY LAST_UPDATED ASC, AUDIT_ID ASC -- trailing";
    assert!(parsed(with_statement(commented)).is_err());

    for statement in [
        format!("{COMPOSITE_STATEMENT}; SELECT 1 FROM DUAL"),
        format!("{COMPOSITE_STATEMENT}; DELETE FROM AUDIT_LOGS"),
        "SELECT 1; DELETE FROM audit_logs".to_owned(),
    ] {
        assert!(parsed(with_statement(&statement)).is_err(), "{statement}");
    }
}

/// Scenario: An otherwise valid watermark query adds an Oracle row-locking clause.
/// Guarantees: FOR UPDATE variants are rejected before connecting or acquiring row locks.
#[test]
fn rejects_row_locking_selects() {
    for clause in [
        "FOR UPDATE",
        "FOR UPDATE OF AUDIT_ID",
        "FOR UPDATE NOWAIT",
        "FOR UPDATE SKIP LOCKED",
        "for update wait 1",
    ] {
        let statement = format!("{COMPOSITE_STATEMENT} {clause}");
        assert!(parsed(with_statement(&statement)).is_err(), "{statement}");
    }
}

/// Scenario: A valid composite statement uses a trailing semicolon and extra surrounding spacing.
/// Guarantees: Ordinary operator formatting is accepted, so validation rejects unsafe SQL rather
/// than merely unusual whitespace.
#[test]
fn accepts_ordinary_statement_formatting() {
    let formatted = format!("  {COMPOSITE_STATEMENT} ;  ");
    let config = parsed(with_statement(&formatted)).ok().expect("ordinary formatting");
    assert_eq!(config.query.sql(), COMPOSITE_STATEMENT);
}

/// Scenario: Oracle configuration uses an unsupported query timeout.
/// Guarantees: Fractional-second and excessively long timeouts fail before opening a connection.
#[test]
fn rejects_unsupported_oracle_timeouts() {
    for timeout in [Duration::from_nanos(500_000), Duration::from_secs(360)] {
        assert!(parsed(with_polling(|polling| polling.timeout = timeout)).is_err());
    }
}

/// Scenario: A source identifier is large enough to amplify every emitted row.
/// Guarantees: Repeated OTLP resource identity remains bounded by configuration validation.
#[test]
fn rejects_oversized_source_id() {
    let config = RawStreamConfig { source_id: "x".repeat(257), ..documented_config() };
    assert!(parsed(config).is_err());
}

/// Scenario: Two configurations differ only in mounted credential paths, or only in semantics.
/// Guarantees: Rotating a secret preserves the durable checkpoint, while changing the query or a
/// cursor definition invalidates it so an unrelated position is never resumed.
#[test]
fn fingerprint_tracks_semantics_and_ignores_credential_paths() {
    let baseline = parsed(documented_config()).ok().expect("baseline should parse");

    let mut rotated = documented_config();
    rotated.connection.password_file = "/var/run/secrets/rotated".to_owned();
    rotated.connection.instant_client_dir = "/opt/oracle/ic-23".to_owned();
    let rotated = parsed(rotated).ok().expect("rotated credentials should parse");
    assert_eq!(baseline.fingerprint, rotated.fingerprint);
    assert_eq!(baseline.fingerprint.len(), 64);

    let different_cursor = RawStreamConfig {
        watermark: watermark("LAST_UPDATED", "1970-01-01 00:00:00", "AUDIT_ID", 100),
        ..documented_config()
    };
    let different_cursor = parsed(different_cursor).ok().expect("changed cursor should parse");
    assert_ne!(baseline.fingerprint, different_cursor.fingerprint);

    let different_source =
        RawStreamConfig { source_id: "oracle-orders".to_owned(), ..documented_config() };
    let different_source = parsed(different_source).ok().expect("changed source should parse");
    assert_ne!(baseline.fingerprint, different_source.fingerprint);
}

/// Scenario: A pipeline validates a documented Oracle node before instantiating it.
/// Guarantees: Configuration validation succeeds repeatedly without acquiring a source lease, so
/// validating a pipeline never blocks the receiver that later runs it.
#[test]
fn validation_does_not_acquire_a_source_lease() {
    assert!(parsed(documented_config()).is_ok());
    assert!(parsed(documented_config()).is_ok());
}

/// Scenario: conditions hide the composite predicate where it does not bind, or add to it.
/// Guarantees: only a predicate that every returned row satisfies is accepted.
#[test]
fn conditions_are_read_as_sql_reads_them() {
    let words = words_of(&watermark("ts", "1970-01-01", "id", 0));
    let keyset = "(ts > :last_timestamp OR (ts = :last_timestamp AND id > :last_tie_breaker))";
    let checked = |condition: &str| {
        validate_statement(
            &format!("SELECT ts, id FROM t WHERE {condition} ORDER BY ts, id"),
            &words,
        )
    };
    for condition in [
        keyset.to_owned(),
        format!("kind = 'a OR b' AND {keyset}"),
        format!("n BETWEEN 1 AND 2 AND {keyset} AND \"Odd -- name\" = 1"),
        format!("(({keyset})) AND n IN (SELECT n FROM u WHERE m = 1 OR m = 2)"),
        "ts > :LAST_TIMESTAMP OR TS = :last_timestamp AND ID > :last_tie_breaker".to_owned(),
    ] {
        assert_eq!(checked(&condition), Ok(()), "{condition}");
    }
    let refused =
        Err("WHERE must enforce timestamp > bind OR (timestamp = bind AND tie_breaker > bind)");
    for condition in [
        format!("n = 1 OR {keyset}"),
        format!("NOT {keyset}"),
        format!("flag BETWEEN 0 AND {keyset}"),
        format!("1 = CASE WHEN n = 1 AND {keyset} AND m = 2 THEN 1 ELSE 1 END"),
        "ts > :last_timestamp".to_owned(),
        "ts > :last_timestamp OR (ts = :last_timestamp AND id > :last_tie_breaker OR n = 1)"
            .to_owned(),
    ] {
        assert_eq!(checked(&condition), refused, "{condition}");
    }
    assert_eq!(
        checked(&format!("{keyset} AND n = :other")),
        Err("query.statement may use the watermark binds only")
    );
    assert_eq!(
        checked(&format!("{keyset} AND kind = q'[it's]'")),
        Err("query.statement must not contain comments or open quotations")
    );
    assert_eq!(
        checked(&format!("{keyset})")),
        Err("query.statement has unbalanced parentheses")
    );
    assert_eq!(
        validate_statement("DELETE FROM t", &words),
        Err("query.statement must be a SELECT")
    );
    assert_eq!(
        validate_statement(&" ".repeat(65_537), &words),
        Err("query.statement exceeds 64 KiB")
    );
}

/// Scenario: connection settings are missing.
/// Guarantees: each is refused without being shown.
#[test]
fn stream_settings_are_required() {
    for (change, message) in [
        (
            (|config: &mut RawStreamConfig| config.source_id = " ".to_owned())
                as fn(&mut RawStreamConfig),
            "source_id must contain 1..=256 bytes",
        ),
        (
            |config| config.connection.connect_string = String::new(),
            "connection requires a connect string and a client directory",
        ),
        (
            |config| config.connection.password_file = String::new(),
            "credential file paths must not be empty",
        ),
    ] {
        let mut config = documented_config();
        change(&mut config);
        assert_eq!(parsed(config).err(), Some(message));
    }
}

/// Scenario: another clause follows the condition and holds the cursor's comparison.
/// Guarantees: the comparison is not taken for a part of the condition.
#[test]
fn rejects_clauses_between_the_condition_and_the_order() {
    let keyset = "(LAST_UPDATED > :last_timestamp OR \
         (LAST_UPDATED = :last_timestamp AND AUDIT_ID > :last_tie_breaker))";
    for clause in [
        "CONNECT BY PARENT = 1 AND",
        "START WITH PARENT = 1 AND",
        "GROUP BY AUDIT_ID HAVING COUNT(*) > 1 AND",
        "HAVING 1 = 1 AND",
        "MODEL X = 1 AND",
    ] {
        let statement = format!(
            "SELECT AUDIT_ID, LAST_UPDATED FROM AUDIT_LOGS WHERE ACTIVE = 1 {clause} {keyset} \
             ORDER BY LAST_UPDATED, AUDIT_ID"
        );
        assert_eq!(
            parsed(with_statement(&statement)).err(),
            Some("hierarchies, groupings and models are not supported"),
            "{statement}"
        );
    }
    let nested = format!(
        "SELECT AUDIT_ID, LAST_UPDATED FROM AUDIT_LOGS WHERE AUDIT_ID IN \
         (SELECT ID FROM SEEN GROUP BY ID) AND {keyset} ORDER BY LAST_UPDATED, AUDIT_ID"
    );
    assert!(parsed(with_statement(&nested)).is_ok());
}

/// Scenario: two configurations differ in what they read, or only in how.
/// Guarantees: the fingerprint tells the first two apart and not the others.
#[test]
fn fingerprints_tell_streams_apart() {
    let base = parsed(documented_config()).ok().expect("valid").fingerprint;
    let mut other = documented_config();
    other.source_id = "oracle-orders".to_owned();
    assert_ne!(parsed(other).ok().expect("valid").fingerprint, base);
    let mut other = documented_config();
    other.connection.connect_string = "database.contoso.com:1521/OTHER".to_owned();
    assert_ne!(parsed(other).ok().expect("valid").fingerprint, base);
    let mut same = documented_config();
    same.connection.password_file = "/elsewhere".to_owned();
    same.polling.timeout = Duration::from_secs(20);
    assert_eq!(parsed(same).ok().expect("valid").fingerprint, base);
}
