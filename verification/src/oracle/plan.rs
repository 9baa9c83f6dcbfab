//! The decode plan of a prepared statement, made once per session from its first result
//! metadata.

use crate::database::row::{copy_columns, ColumnMetadata};
use crate::oracle::error::OracleAdapterError;
use crate::oracle::page;
use crate::oracle::page::{OraclePage, OraclePageModel};
use crate::oracle::types;
use crate::oracle::types::{
    bounded_fetch_array_size, metadata_matches, result_metadata, validate_cursor_columns,
    OracleColumn, OracleType,
};
use crate::polling::CompiledQuery;
use vstd::prelude::*;

verus! {

/// How the rows of a statement are fetched and decoded.
pub struct DecodePlan {
    columns: Vec<ColumnMetadata>,
    types: Vec<OracleType>,
    timestamp_index: usize,
    tie_breaker_index: usize,
    fetch_rows: u32,
}

/// How the rows of a statement are fetched and decoded.
pub struct PlanModel {
    pub columns: Seq<ColumnMetadata>,
    pub types: Seq<OracleType>,
    pub timestamp_index: int,
    pub tie_breaker_index: int,
    pub fetch_rows: nat,
}

impl View for DecodePlan {
    type V = PlanModel;

    closed spec fn view(&self) -> PlanModel {
        PlanModel {
            columns: self.columns@,
            types: self.types@,
            timestamp_index: self.timestamp_index as int,
            tie_breaker_index: self.tie_breaker_index as int,
            fetch_rows: self.fetch_rows as nat,
        }
    }
}

/// Why no plan can be made for a result, if none can: a type is not supported, or the
/// cursor's columns are missing, of another type, or may be NULL.
pub open spec fn plan_failure(columns: Seq<OracleColumn>, query: CompiledQuery) -> Option<
    OracleAdapterError,
> {
    let watermark = query.tracking();
    match types::first_unsupported(columns) {
        Some(name) => Some(OracleAdapterError::UnsupportedType(name)),
        None => match types::cursor_failure(columns, watermark) {
            Some(error) => Some(error),
            None => if columns[types::column_at(columns, watermark.timestamp_column@)->0].nullable
                || columns[types::column_at(columns, watermark.tie_breaker_column@)->0].nullable {
                Some(OracleAdapterError::NullableCursorColumn)
            } else {
                None
            },
        },
    }
}

/// Whether a plan is the one for a result.
pub open spec fn is_plan(plan: PlanModel, columns: Seq<OracleColumn>, query: CompiledQuery) -> bool {
    let watermark = query.tracking();
    &&& types::are_described(plan.columns, columns)
    &&& plan.types == types::types_of(columns)
    &&& types::column_at(columns, watermark.timestamp_column@) == Some(plan.timestamp_index)
    &&& types::column_at(columns, watermark.tie_breaker_column@) == Some(plan.tie_breaker_index)
    &&& plan.fetch_rows == types::fetch_rows(
        plan.types,
        query.bounds().max_rows_per_poll as nat,
        query.bounds().fetch_size_rows as nat,
        query.bounds().max_batch_bytes,
    )
}

impl DecodePlan {
    #[verifier::type_invariant]
    closed spec fn pairs_up(self) -> bool {
        &&& self.columns@.len() == self.types@.len()
        &&& self.timestamp_index < self.types@.len()
        &&& self.tie_breaker_index < self.types@.len()
    }

    /// Makes the plan for a result.
    pub fn prepare(columns: &Vec<OracleColumn>, query: &CompiledQuery) -> (r: Result<
        Self,
        OracleAdapterError,
    >)
        ensures
            match r {
                Ok(plan) => plan_failure(columns@, *query) is None && is_plan(
                    plan@,
                    columns@,
                    *query,
                ),
                Err(error) => plan_failure(columns@, *query) == Some(error),
            },
    {
        let (metadata, types) = match result_metadata(columns) {
            Ok(found) => found,
            Err(error) => {
                return Err(error);
            },
        };
        let (timestamp_index, tie_breaker_index) = match validate_cursor_columns(
            columns,
            query.watermark(),
        ) {
            Ok(found) => found,
            Err(error) => {
                return Err(error);
            },
        };
        let fetch_rows: u32 = bounded_fetch_array_size(&types, query);
        Ok(
            DecodePlan {
                columns: metadata,
                types,
                timestamp_index,
                tie_breaker_index,
                fetch_rows,
            },
        )
    }

    /// How many rows one fetch asks for.
    pub fn fetch_rows(&self) -> (n: u32)
        ensures
            n == self@.fetch_rows,
    {
        self.fetch_rows
    }

    /// The places of the cursor's columns.
    pub fn cursor_indices(&self) -> (r: (usize, usize))
        ensures
            r.0 == self@.timestamp_index,
            r.1 == self@.tie_breaker_index,
            r.0 < self@.types.len(),
            r.1 < self@.types.len(),
    {
        proof {
            use_type_invariant(self);
        }
        (self.timestamp_index, self.tie_breaker_index)
    }

    /// Borrows the types of the columns.
    pub fn types(&self) -> (r: &Vec<OracleType>)
        ensures
            r@ == self@.types,
    {
        &self.types
    }

    /// Copies the metadata of the columns.
    pub fn columns(&self) -> (r: Vec<ColumnMetadata>)
        ensures
            r@ == self@.columns,
    {
        copy_columns(&self.columns)
    }

    /// Starts a page, unless the result has changed since the plan was made.
    pub fn begin_page(&self, columns: &Vec<OracleColumn>, query: &CompiledQuery) -> (r: Result<
        OraclePage,
        OracleAdapterError,
    >)
        ensures
            match r {
                Ok(builder) => {
                    &&& types::still_matches(columns@, self@.columns, self@.types)
                    &&& page::page_valid(builder@)
                    &&& builder@ == (OraclePageModel {
                        columns: self@.columns,
                        types: self@.types,
                        max_rows: query.bounds().max_rows_per_poll as nat,
                        limit: query.bounds().max_batch_bytes,
                        rows: Seq::empty(),
                        used: page::empty_bytes(),
                        done: false,
                    })
                },
                Err(error) => error == OracleAdapterError::ResultMetadataChanged
                    && !types::still_matches(columns@, self@.columns, self@.types),
            },
    {
        proof {
            use_type_invariant(self);
        }
        if !metadata_matches(columns, &self.columns, &self.types) {
            return Err(OracleAdapterError::ResultMetadataChanged);
        }
        let mut types: Vec<OracleType> = Vec::new();
        let mut i: usize = 0;
        while i < self.types.len()
            invariant
                i <= self.types@.len(),
                types@ == self.types@.take(i as int),
            decreases self.types.len() - i,
        {
            types.push(self.types[i]);
            i += 1;
            assert(types@ =~= self.types@.take(i as int));
        }
        assert(types@ =~= self.types@);
        Ok(OraclePage::new(&self.columns, types, query.max_rows(), query.max_normalized_bytes()))
    }
}

/// A plan can be made for a result exactly when every type is supported, the cursor is usable
/// and neither of its columns may be NULL.
pub proof fn law_plans_need_a_complete_cursor(columns: Seq<OracleColumn>, query: CompiledQuery)
    ensures
        plan_failure(columns, query) is None <==> (forall|i: int|
            0 <= i < columns.len() ==> (#[trigger] columns[i]).oracle_type
                != types::OracleType::Unsupported) && types::cursor_failure(
            columns,
            query.tracking(),
        ) is None && !columns[types::column_at(
            columns,
            query.tracking().timestamp_column@,
        )->0].nullable && !columns[types::column_at(
            columns,
            query.tracking().tie_breaker_column@,
        )->0].nullable,
{
    types::law_first_unsupported_column_is_refused(columns);
}

/// A plan decodes exactly the columns of its result, each under its own name and by its own
/// type, and knows the places of the cursor's columns.
pub proof fn law_plans_are_of_their_result(
    plan: PlanModel,
    columns: Seq<OracleColumn>,
    query: CompiledQuery,
    i: int,
)
    requires
        is_plan(plan, columns, query),
        0 <= i < columns.len(),
    ensures
        plan.columns.len() == columns.len(),
        plan.types.len() == columns.len(),
        plan.columns[i].name == columns[i].name,
        plan.columns[i].source_type == columns[i].source_type,
        plan.columns[i].nullable == columns[i].nullable,
        plan.types[i] == columns[i].oracle_type,
        types::column_at(columns, query.tracking().timestamp_column@) == Some(plan.timestamp_index),
        types::column_at(columns, query.tracking().tie_breaker_column@) == Some(
            plan.tie_breaker_index,
        ),
        plan.fetch_rows == types::fetch_rows(
            plan.types,
            query.bounds().max_rows_per_poll as nat,
            query.bounds().fetch_size_rows as nat,
            query.bounds().max_batch_bytes,
        ),
{
    assert(types::is_described(plan.columns[i], columns[i]));
}

} // verus!
