use database_receiver::database::config::{
    DatabaseReceiverConfig, ErrorPolicy, LimitsConfig, OutputConfig, PaginationConfig,
    QueryConfig, RetryConfig, SchedulingConfig, TimestampConfig,
};
use database_receiver::database::query::{CompiledQuery, QueryCompileError};
use database_receiver::json::{parse, JsonValue};
use database_receiver::names::NameMap;
use database_receiver::time::Duration;

struct TestConnection {
    endpoint: String,
}

fn query(sql: &str, interval: u64) -> QueryConfig {
    QueryConfig {
        sql: sql.to_owned(),
        interval: Duration::from_secs(interval),
        timeout: Duration::from_secs(10),
        pagination: PaginationConfig::default(),
        parameters: NameMap::new(),
        output: OutputConfig::default(),
        error_policy: ErrorPolicy::default(),
    }
}

fn receiver(
    limits: LimitsConfig,
    queries: Vec<(&str, QueryConfig)>,
) -> DatabaseReceiverConfig<TestConnection> {
    let mut named = NameMap::new();
    for (name, query) in queries {
        named.insert(name.to_owned(), query);
    }
    DatabaseReceiverConfig {
        database: TestConnection { endpoint: "database".to_owned() },
        limits,
        scheduling: SchedulingConfig::default(),
        retry: RetryConfig::default(),
        resource_attributes: NameMap::new(),
        queries: named,
    }
}

/// Scenario: a receiver declares two independently scheduled snapshot queries.
/// Guarantees: shared defaults are bounded and both named jobs pass semantic validation.
#[test]
fn validates_named_query_configuration() {
    let config = receiver(
        LimitsConfig::default(),
        vec![
            ("orders", query("SELECT order_id FROM orders", 30)),
            ("health", query("SELECT status FROM health", 300)),
        ],
    );

    assert_eq!(config.database.endpoint, "database");
    assert_eq!(config.limits.max_batch_bytes(), 8 * 1024 * 1024);
    assert_eq!(config.queries.len(), 2);
    config.validate().expect("configuration should validate");
}

/// Scenario: receiver memory cannot reserve one batch for every permitted concurrent query.
/// Guarantees: configuration rejects limits that could overcommit the in-flight byte budget.
#[test]
fn rejects_inconsistent_memory_limits() {
    let mut limits = LimitsConfig::default();
    limits.max_concurrent_queries = 2;
    limits.max_batch_bytes = Some(8 * 1024 * 1024);
    limits.max_in_flight_bytes = Some(8 * 1024 * 1024);
    let config = receiver(limits, vec![("orders", query("SELECT order_id FROM orders", 30))]);

    assert!(config.validate().is_err());
}

/// Scenario: a receiver has no query, a query that writes, or a query with an unusable name.
/// Guarantees: each is refused with its own message.
#[test]
fn refuses_unusable_queries() {
    let none = receiver(LimitsConfig::default(), Vec::new());
    assert_eq!(
        none.validate().expect_err("no query"),
        "queries must contain at least one named query"
    );
    let writes = receiver(
        LimitsConfig::default(),
        vec![("orders", query("DELETE FROM orders", 30))],
    );
    assert!(writes.validate().expect_err("writes").contains("orders"));
    let unnamed = receiver(
        LimitsConfig::default(),
        vec![("or ders", query("SELECT 1 FROM orders", 30))],
    );
    assert!(unnamed.validate().is_err());
}

fn with_parameter(sql: &str, name: &str, value: &str) -> QueryConfig {
    let mut config = query(sql, 30);
    config
        .parameters
        .insert(name.to_owned(), parse(value).expect("JSON"));
    config
}

/// Scenario: one query contains an unsupported structured bind value.
/// Guarantees: the compile error identifies the bind rather than incorrectly naming the query.
#[test]
fn compile_error_identifies_bind_name() {
    let config = with_parameter(
        "SELECT 1 FROM DUAL WHERE :customer_id = 1",
        "customer_id",
        "[42]",
    );

    match CompiledQuery::compile("customers".to_owned(), config) {
        Ok(_) => panic!("array bind should fail"),
        Err(error) => assert!(matches!(
            error,
            QueryCompileError::UnsupportedBindValue { name } if name == "customer_id"
        )),
    }
}

/// Scenario: a bind is NULL, or a number that no exact type holds.
/// Guarantees: neither is bound by guessing a type.
#[test]
fn untyped_and_inexact_binds_are_refused() {
    let config = with_parameter("SELECT 1 FROM DUAL WHERE :a = 1", "a", "null");
    assert!(matches!(
        CompiledQuery::compile("q".to_owned(), config),
        Err(QueryCompileError::UntypedNullBind { name }) if name == "a"
    ));
    let config = with_parameter("SELECT 1 FROM DUAL WHERE :a = 1", "a", "7");
    assert!(CompiledQuery::compile("q".to_owned(), config).is_ok());
}

/// Scenario: a compiled query is formatted for diagnostics.
/// Guarantees: SQL text and bind values are not exposed through Debug output.
#[test]
fn debug_output_redacts_sql_and_bind_values() {
    let config = with_parameter(
        "SELECT * FROM secret_table WHERE token = :token",
        "token",
        "\"sensitive-value\"",
    );
    let query = match CompiledQuery::compile("secrets".to_owned(), config) {
        Ok(query) => query,
        Err(_) => panic!("query should compile"),
    };

    let debug = query.describe();
    assert!(!debug.contains("secret_table"));
    assert!(!debug.contains("sensitive-value"));
    assert!(debug.contains("<redacted>"));
}

/// Scenario: a plan with a mapping is shown in diagnostics.
/// Guarantees: everything but the SQL text and the bind values is shown.
#[test]
fn descriptions_show_the_plan() {
    let mut config = query("SELECT id, at, note FROM events", 30);
    config.timeout = Duration::from_millis(1_500);
    config.pagination = PaginationConfig { max_rows: 7 };
    config.output.include_columns = vec!["ID".to_owned(), "NOTE".to_owned()];
    config.output.attributes.insert("NOTE".to_owned(), "event.note".to_owned());
    config.output.attributes.insert("ID".to_owned(), "event.id".to_owned());
    config.output.timestamp = Some(TimestampConfig { column: "AT".to_owned() });
    config.error_policy = ErrorPolicy::StopQuery;
    let plan = match CompiledQuery::compile("events".to_owned(), config) {
        Ok(plan) => plan,
        Err(_) => panic!("query should compile"),
    };
    assert_eq!(
        plan.describe(),
        "CompiledQuery { name: events, sql: <redacted>, interval: 30s, timeout: 1.500000000s, \
         max_rows: 7, bind_count: 0, output: OutputConfig { include_columns: [ID, NOTE], \
         attributes: {ID: event.id, NOTE: event.note}, timestamp: AT, oversize_policy: error }, \
         error_policy: stop_query }"
    );
    assert_eq!(
        OutputConfig::default().describe(),
        "OutputConfig { include_columns: [], attributes: {}, timestamp: none, \
         oversize_policy: error }"
    );
}

/// Scenario: an object has the name that a JSON library reserves for itself.
/// Guarantees: it is read as the object it is.
#[test]
fn reserved_names_are_plain_names() {
    match parse("{\"$serde_json::private::RawValue\":\"1\"}") {
        Some(JsonValue::Object(members)) => {
            assert_eq!(members[0].name, "$serde_json::private::RawValue");
            assert!(matches!(&members[0].value, JsonValue::String(text) if text == "1"));
        }
        _ => panic!("object"),
    }
}

/// Scenario: a document holds every kind of value.
/// Guarantees: integers, doubles and nesting are told apart, and broken text is refused.
#[test]
fn documents_keep_their_kinds() {
    let value = parse("{\"b\":[1,-2,0.5,true,null],\"a\":\"x\"}").expect("JSON");
    match value {
        JsonValue::Object(members) => {
            assert_eq!(members[0].name, "a");
            assert!(matches!(&members[0].value, JsonValue::String(text) if text == "x"));
            match &members[1].value {
                JsonValue::Array(items) => assert_eq!(items.len(), 5),
                _ => panic!("array"),
            }
        }
        _ => panic!("object"),
    }
    assert!(parse("{\"a\":").is_none());
}
