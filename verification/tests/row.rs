use database_receiver::database::config::OversizePolicy;
use database_receiver::database::query::ExecutionLimits;
use database_receiver::database::row::{
    validate_columns, CellValue, ColumnMetadata, Row, RowError, RowPageBuilder,
};

fn limits() -> ExecutionLimits {
    ExecutionLimits {
        max_rows: 10,
        max_batch_rows: 10,
        max_batch_bytes: 8,
        max_page_bytes: 32,
        fetch_size: 10,
    }
}

fn column(name: &str) -> ColumnMetadata {
    ColumnMetadata {
        name: name.to_owned(),
        source_type: "VARCHAR2".to_owned(),
        nullable: false,
    }
}

fn text_row(value: &str) -> Row {
    Row { values: vec![CellValue::String(value.to_owned())] }
}

/// Scenario: normalized rows collectively exceed one batch-byte limit.
/// Guarantees: rows are split into bounded batches before downstream admission.
#[test]
fn splits_rows_by_normalized_bytes() {
    let columns = vec![column("value")];
    let mut builder =
        RowPageBuilder::new(columns, limits(), OversizePolicy::Error).expect("metadata");
    builder.push(text_row("a")).expect("first row");
    builder.push(text_row("b")).expect("second row");

    let page = builder.finish();
    assert_eq!(page.batches.len(), 2);
    assert_eq!(page.row_count, 2);
}

/// Scenario: one source value is larger than the configured batch-byte ceiling.
/// Guarantees: default conversion fails explicitly and never truncates source data.
#[test]
fn rejects_oversized_single_row() {
    let columns = vec![column("v")];
    let mut builder =
        RowPageBuilder::new(columns, limits(), OversizePolicy::Error).expect("metadata");
    let error = builder
        .push(text_row("0123456789"))
        .expect_err("oversized row must fail");

    assert!(matches!(error, RowError::OversizedRow { .. }));
}

/// Scenario: an operator allows one row beyond the batch-byte ceiling.
/// Guarantees: the row becomes a batch of its own and its neighbours keep their own batches.
#[test]
fn oversized_row_may_stand_alone() {
    let mut builder = RowPageBuilder::new(
        vec![column("v")],
        limits(),
        OversizePolicy::AllowSingleRow,
    )
    .expect("metadata");
    builder.push(text_row("abc")).expect("small row");
    builder.push(text_row("0123456789")).expect("large row");
    builder.push(text_row("def")).expect("small row");
    let page = builder.finish();
    assert_eq!(page.row_count, 3);
    let sizes: Vec<usize> = page.batches.iter().map(|batch| batch.rows.len()).collect();
    assert_eq!(sizes, vec![1, 1, 1]);
}

/// Scenario: rows do not match their metadata, or exceed the row and page limits.
/// Guarantees: each bound has its own error and the page keeps what it held.
#[test]
fn page_bounds_are_reported() {
    let mut one = limits();
    one.max_rows = 1;
    let mut builder =
        RowPageBuilder::new(vec![column("v")], one, OversizePolicy::Error).expect("metadata");
    let error = builder
        .push(Row { values: Vec::new() })
        .expect_err("missing value");
    assert!(matches!(error, RowError::ColumnCount { expected: 1, actual: 0 }));
    builder.push(text_row("a")).expect("row");
    let error = builder.push(text_row("b")).expect_err("row limit");
    assert!(matches!(error, RowError::RowLimitExceeded { limit: 1 }));
    assert_eq!(builder.finish().row_count, 1);

    let mut small = limits();
    small.max_page_bytes = 10;
    let mut builder =
        RowPageBuilder::new(vec![column("v")], small, OversizePolicy::Error).expect("metadata");
    builder.push(text_row("abcdef")).expect("row");
    let error = builder.push(text_row("abcdef")).expect_err("page limit");
    assert!(matches!(error, RowError::PageByteLimitExceeded { limit: 10, .. }));
}

/// Scenario: two result columns differ in case only.
/// Guarantees: the ambiguous name is reported.
#[test]
fn duplicate_columns_are_ambiguous() {
    let error = validate_columns(&vec![column("Id"), column("other"), column("ID")])
        .expect_err("ambiguous");
    assert!(matches!(error, RowError::DuplicateColumn { ref name } if name == "ID"));
    assert_eq!(
        error.message(),
        "result column 'ID' is not unique after normalization"
    );
}
