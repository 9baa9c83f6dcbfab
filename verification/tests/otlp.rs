use database_receiver::database::config::{OutputConfig, OversizePolicy, TimestampConfig};
use database_receiver::database::driver::DatabaseSystem;
use database_receiver::database::otlp::{
    cell_to_any, parse_event_time, rows_to_logs, OtlpMapping, OtlpMappingError,
};
use database_receiver::database::row::{CellValue, ColumnMetadata, Row, RowBatch};
use database_receiver::double::Double;
use database_receiver::names::NameMap;
use database_receiver::otlp::{AnyValue, AnyValueKind};

/// Scenario: a typed database row is mapped with source time and selected attributes.
/// Guarantees: one log preserves JSON scalar types, query identity, and both OTLP timestamps.
#[test]
fn maps_typed_rows_to_shared_otlp_schema() {
    let batch = RowBatch {
        columns: vec![
            ColumnMetadata {
                name: "ORDER_ID".to_owned(),
                source_type: "NUMBER".to_owned(),
                nullable: false,
            },
            ColumnMetadata {
                name: "UPDATED_AT".to_owned(),
                source_type: "TIMESTAMP".to_owned(),
                nullable: false,
            },
        ],
        rows: vec![Row {
            values: vec![
                CellValue::Int64(42),
                CellValue::Timestamp("2026-08-26 16:40:00".to_owned()),
            ],
        }],
        normalized_bytes: 32,
    };
    let mut attributes = NameMap::new();
    attributes.insert("order_id".to_owned(), "order.id".to_owned());
    let output = OutputConfig {
        include_columns: Vec::new(),
        attributes,
        timestamp: Some(TimestampConfig { column: "UPDATED_AT".to_owned() }),
        oversize_policy: OversizePolicy::Error,
    };
    let logs = rows_to_logs(
        batch,
        OtlpMapping {
            system: DatabaseSystem::Oracle,
            query_name: "orders",
            output: &output,
            resource_attributes: &NameMap::new(),
            observed_time_unix_nano: 123,
        },
    )
    .expect("row should map");

    let record = &logs.resource_logs[0].scope_logs[0].log_records[0];
    assert_ne!(record.time_unix_nano, 123);
    assert_eq!(record.time_unix_nano, 1_787_762_400_000_000_000);
    assert_eq!(record.observed_time_unix_nano, 123);
    assert!(matches!(
        record.body,
        Some(AnyValue { value: Some(AnyValueKind::KvlistValue(_)) })
    ));
    assert!(record.attributes.iter().any(|attribute| {
        attribute.key == "order.id"
            && matches!(
                attribute.value,
                Some(AnyValue { value: Some(AnyValueKind::IntValue(42)) })
            )
    }));
}

/// Scenario: bytes of every remainder, and doubles that are no numbers.
/// Guarantees: bytes are written in standard base64 and NaN is refused.
#[test]
fn cells_map_without_loss() {
    for (bytes, expected) in [
        (vec![], ""),
        (vec![0xff], "/w=="),
        (vec![1, 2], "AQI="),
        (vec![1, 2, 3], "AQID"),
    ] {
        match cell_to_any(&CellValue::Bytes(bytes)) {
            Ok(AnyValue { value: Some(AnyValueKind::StringValue(text)) }) => {
                assert_eq!(text, expected)
            }
            _ => panic!("bytes should map"),
        }
    }
    let nan = Double { bits: f64::NAN.to_bits() };
    assert!(matches!(
        cell_to_any(&CellValue::Float64(nan)),
        Err(OtlpMappingError::NonFiniteFloat)
    ));
}

/// Scenario: event times with and without an offset, before the epoch, and unreadable.
/// Guarantees: both forms name the same instant, and what cannot be held is refused.
#[test]
fn event_times_are_read_exactly() {
    let naive = CellValue::Timestamp("1970-01-01 00:00:01.5".to_owned());
    let zoned = CellValue::TimestampTz("1970-01-01T02:00:01.5+02:00".to_owned());
    assert_eq!(parse_event_time(&naive, "t").expect("naive"), 1_500_000_000);
    assert_eq!(parse_event_time(&zoned, "t").expect("zoned"), 1_500_000_000);
    let early = CellValue::Timestamp("1969-12-31 23:59:59".to_owned());
    assert!(parse_event_time(&early, "t").is_err());
    assert!(parse_event_time(&CellValue::Timestamp("noon".to_owned()), "t").is_err());
}

/// Scenario: a row holds NULL, and so does a JSON cell.
/// Guarantees: each is an empty value under its name, not a missing one.
#[test]
fn nulls_are_present_and_empty() {
    let column = |name: &str, source_type: &str| ColumnMetadata {
        name: name.to_owned(),
        source_type: source_type.to_owned(),
        nullable: true,
    };
    let batch = RowBatch {
        columns: vec![column("NOTE", "VARCHAR2"), column("DATA", "JSON")],
        rows: vec![Row {
            values: vec![CellValue::Null, CellValue::Json("{\"a\":null}".to_owned())],
        }],
        normalized_bytes: 8,
    };
    let logs = rows_to_logs(
        batch,
        OtlpMapping {
            system: DatabaseSystem::Oracle,
            query_name: "notes",
            output: &OutputConfig::default(),
            resource_attributes: &NameMap::new(),
            observed_time_unix_nano: 1,
        },
    )
    .expect("row should map");
    let record = &logs.resource_logs[0].scope_logs[0].log_records[0];
    let body = match &record.body {
        Some(AnyValue { value: Some(AnyValueKind::KvlistValue(list)) }) => &list.values,
        _ => panic!("body"),
    };
    assert_eq!(body[0].key, "NOTE");
    assert!(matches!(body[0].value, Some(AnyValue { value: None })));
    match &body[1].value {
        Some(AnyValue { value: Some(AnyValueKind::KvlistValue(list)) }) => {
            assert_eq!(list.values[0].key, "a");
            assert!(matches!(list.values[0].value, Some(AnyValue { value: None })));
        }
        _ => panic!("object"),
    }
}
