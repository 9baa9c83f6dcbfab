//! Compiled database query plans and typed logical bind values.

use crate::database::config;
use crate::database::config::{ErrorPolicy, OutputConfig, QueryConfig};
use crate::database::row::CellValue;
use crate::double;
use crate::json::{JsonNumber, JsonValue};
use crate::names::NameMap;
use crate::text;
use crate::text::{append_decimal, append_text, joined, owned};
use crate::time;
use crate::time::Duration;
use vstd::prelude::*;

verus! {

/// Immutable database-neutral plan for one named query job.
pub struct CompiledQuery {
    /// Stable configured query identity.
    pub name: String,
    /// Read-only operator-authored SQL.
    pub sql: String,
    /// Delay between completed polls.
    pub interval: Duration,
    /// Per-execution deadline.
    pub timeout: Duration,
    /// Hard client-side row limit.
    pub max_rows: usize,
    /// Static logical bind values.
    pub binds: Vec<BindValue>,
    /// Shared OTLP mapping policy.
    pub output: OutputConfig,
    /// Permanent failure scope.
    pub error_policy: ErrorPolicy,
}

/// Why a static parameter cannot be bound.
pub enum BindFailure {
    UntypedNull,
    Unsupported,
    Overflow,
}

/// The cell that a JSON parameter binds as. Integers of 64 bits keep their value,
/// and nothing is rounded.
pub open spec fn bound(value: JsonValue) -> Result<CellValue, BindFailure> {
    match value {
        JsonValue::Null => Err(BindFailure::UntypedNull),
        JsonValue::Bool(value) => Ok(CellValue::Bool(value)),
        JsonValue::String(value) => Ok(CellValue::String(value)),
        JsonValue::Number(JsonNumber::Natural(value)) => if value <= i64::MAX {
            Ok(CellValue::Int64(value as i64))
        } else {
            Ok(CellValue::UInt64(value))
        },
        JsonValue::Number(JsonNumber::Negative(value)) => Ok(CellValue::Int64(value)),
        JsonValue::Number(JsonNumber::Double(value)) => if double::finite(value.bits) {
            Ok(CellValue::Float64(value))
        } else {
            Err(BindFailure::Overflow)
        },
        JsonValue::Array(_) | JsonValue::Object(_) => Err(BindFailure::Unsupported),
    }
}

/// The first parameter that cannot be bound, and why.
pub open spec fn first_failure(parameters: Seq<(Seq<char>, JsonValue)>) -> Option<
    (Seq<char>, BindFailure),
>
    decreases parameters.len(),
{
    if parameters.len() == 0 {
        None
    } else {
        let earlier = first_failure(parameters.drop_last());
        let (name, value) = parameters.last();
        if earlier is Some {
            earlier
        } else {
            match bound(value) {
                Ok(_) => None,
                Err(failure) => Some((name, failure)),
            }
        }
    }
}

/// Whether a plan is that of a configuration: every setting kept, and each parameter
/// bound under its own name in the order of the names.
pub open spec fn plans(query: CompiledQuery, name: Seq<char>, config: QueryConfig) -> bool {
    &&& query.name@ == name
    &&& query.sql == config.sql
    &&& query.interval == config.interval
    &&& query.timeout == config.timeout
    &&& query.max_rows == config.pagination.max_rows
    &&& query.output == config.output
    &&& query.error_policy == config.error_policy
    &&& query.binds@.len() == config.parameters@.len()
    &&& forall|i: int|
        0 <= i < query.binds@.len() ==> (#[trigger] query.binds@[i]).name@
            == config.parameters@[i].0 && bound(config.parameters@[i].1) == Ok::<
            CellValue,
            BindFailure,
        >(query.binds@[i].value)
}

impl CompiledQuery {
    /// Compiles one validated query configuration into an adapter-ready plan.
    pub fn compile(name: String, config: QueryConfig) -> (r: Result<Self, QueryCompileError>)
        ensures
            match r {
                Ok(query) => first_failure(config.parameters@) is None && plans(
                    query,
                    name@,
                    config,
                ),
                Err(error) => first_failure(config.parameters@) == Some(error@),
            },
    {
        let mut binds: Vec<BindValue> = Vec::new();
        let mut i: usize = 0;
        while i < config.parameters.len()
            invariant
                i <= config.parameters@.len(),
                binds@.len() == i,
                first_failure(config.parameters@.take(i as int)) is None,
                forall|j: int|
                    0 <= j < i ==> (#[trigger] binds@[j]).name@ == config.parameters@[j].0 && bound(
                        config.parameters@[j].1,
                    ) == Ok::<CellValue, BindFailure>(binds@[j].value),
            decreases config.parameters@.len() - i,
        {
            let ghost next = config.parameters@.take(i + 1);
            assert(next.drop_last() =~= config.parameters@.take(i as int));
            assert(next.last() == config.parameters@[i as int]);
            let parameter = config.parameters.name(i);
            match bind_value(parameter.as_str(), config.parameters.value(i)) {
                Err(error) => {
                    proof {
                        lemma_first_failure(config.parameters@, (i + 1) as nat);
                    }
                    return Err(error);
                },
                Ok(value) => {
                    binds.push(BindValue { name: parameter.clone(), value });
                },
            }
            i += 1;
        }
        assert(config.parameters@.take(config.parameters@.len() as int) =~= config.parameters@);
        Ok(
            CompiledQuery {
                name,
                sql: config.sql,
                interval: config.interval,
                timeout: config.timeout,
                max_rows: config.pagination.max_rows,
                binds,
                output: config.output,
                error_policy: config.error_policy,
            },
        )
    }

    /// The plan as diagnostics show it: neither SQL text nor bind values.
    pub fn describe(&self) -> (r: String)
        ensures
            r@ == plan_description(*self),
    {
        let mut r = joined(
            "CompiledQuery { name: ",
            self.name.as_str(),
            ", sql: <redacted>, interval: ",
        );
        self.interval.append_to(&mut r);
        append_text(&mut r, ", timeout: ");
        self.timeout.append_to(&mut r);
        append_text(&mut r, ", max_rows: ");
        append_decimal(&mut r, self.max_rows as u64);
        append_text(&mut r, ", bind_count: ");
        append_decimal(&mut r, self.binds.len() as u64);
        append_text(&mut r, ", output: ");
        append_text(&mut r, self.output.describe().as_str());
        append_text(&mut r, ", error_policy: ");
        match self.error_policy {
            ErrorPolicy::StopQuery => append_text(&mut r, "stop_query"),
            ErrorPolicy::StopReceiver => append_text(&mut r, "stop_receiver"),
        }
        append_text(&mut r, " }");
        assert(r@ =~= plan_description(*self));
        r
    }
}

/// A plan as diagnostics show it. Neither the SQL text nor a bind value is part of it.
pub open spec fn plan_description(query: CompiledQuery) -> Seq<char> {
    "CompiledQuery { name: "@ + query.name@ + ", sql: <redacted>, interval: "@
        + time::seconds_text(query.interval@) + ", timeout: "@ + time::seconds_text(query.timeout@)
        + ", max_rows: "@ + text::decimal(query.max_rows as nat) + ", bind_count: "@
        + text::decimal(query.binds@.len()) + ", output: "@ + config::output_description(
        query.output,
    ) + ", error_policy: "@ + match query.error_policy {
        ErrorPolicy::StopQuery => "stop_query"@,
        ErrorPolicy::StopReceiver => "stop_receiver"@,
    } + " }"@
}

/// Diagnostics do not tell plans apart by their SQL text or by the values they bind.
pub proof fn law_description_hides_sql_and_values(
    query: CompiledQuery,
    sql: String,
    binds: Vec<BindValue>,
)
    requires
        binds@.len() == query.binds@.len(),
    ensures
        plan_description(query) == plan_description((CompiledQuery { sql, binds, ..query })),
{
}

proof fn lemma_first_failure(parameters: Seq<(Seq<char>, JsonValue)>, count: nat)
    requires
        count <= parameters.len(),
        first_failure(parameters.take(count as int)) is Some,
    ensures
        first_failure(parameters) == first_failure(parameters.take(count as int)),
    decreases parameters.len(),
{
    if count == parameters.len() {
        assert(parameters.take(count as int) =~= parameters);
    } else {
        assert(parameters.drop_last().take(count as int) =~= parameters.take(count as int));
        lemma_first_failure(parameters.drop_last(), count);
    }
}

/// One logical named parameter whose value remains separate from SQL text.
pub struct BindValue {
    /// Logical bind name.
    pub name: String,
    /// Database-neutral typed value.
    pub value: CellValue,
}

/// Hard execution bounds enforced independently of operator-authored SQL.
#[derive(Clone, Copy, Debug, PartialEq, Eq, Structural)]
pub struct ExecutionLimits {
    /// Maximum rows returned by this query execution.
    pub max_rows: usize,
    /// Maximum rows placed in one downstream batch.
    pub max_batch_rows: usize,
    /// Maximum normalized bytes placed in one downstream batch.
    pub max_batch_bytes: u64,
    /// Maximum normalized bytes materialized by this execution.
    pub max_page_bytes: u64,
    /// Maximum rows prefetched by the driver.
    pub fetch_size: usize,
}

/// Failure while compiling static query configuration.
#[derive(Debug)]
pub enum QueryCompileError {
    /// SQL NULL has no source type, so adapters cannot bind it portably.
    UntypedNullBind {
        /// Logical parameter name.
        name: String,
    },
    /// Static parameters must be scalar values with explicit conversion behavior.
    UnsupportedBindValue {
        /// Logical parameter name.
        name: String,
    },
    /// JSON numbers outside supported typed forms are not silently rounded.
    NumericBindOverflow {
        /// Logical parameter name.
        name: String,
    },
}

impl View for QueryCompileError {
    type V = (Seq<char>, BindFailure);

    /// The parameter that failed, and why.
    open spec fn view(&self) -> (Seq<char>, BindFailure) {
        match self {
            QueryCompileError::UntypedNullBind { name } => (name@, BindFailure::UntypedNull),
            QueryCompileError::UnsupportedBindValue { name } => (name@, BindFailure::Unsupported),
            QueryCompileError::NumericBindOverflow { name } => (name@, BindFailure::Overflow),
        }
    }
}

/// What an operator is told of a parameter that cannot be bound.
pub open spec fn compile_message(error: QueryCompileError) -> Seq<char> {
    match error {
        QueryCompileError::UntypedNullBind { name } => "bind parameter '"@ + name@
            + "' is null and requires an explicit database type"@,
        QueryCompileError::UnsupportedBindValue { name } => "bind parameter '"@ + name@
            + "' must be a scalar JSON value"@,
        QueryCompileError::NumericBindOverflow { name } => "bind parameter '"@ + name@
            + "' is outside the supported numeric range"@,
    }
}

impl QueryCompileError {
    /// What an operator is told of this failure.
    pub fn message(&self) -> (r: String)
        ensures
            r@ == compile_message(*self),
    {
        match self {
            QueryCompileError::UntypedNullBind { name } => joined(
                "bind parameter '",
                name.as_str(),
                "' is null and requires an explicit database type",
            ),
            QueryCompileError::UnsupportedBindValue { name } => joined(
                "bind parameter '",
                name.as_str(),
                "' must be a scalar JSON value",
            ),
            QueryCompileError::NumericBindOverflow { name } => joined(
                "bind parameter '",
                name.as_str(),
                "' is outside the supported numeric range",
            ),
        }
    }
}

/// Turns a JSON parameter into the cell it binds as.
pub fn bind_value(name: &str, value: &JsonValue) -> (r: Result<CellValue, QueryCompileError>)
    ensures
        match r {
            Ok(cell) => bound(*value) == Ok::<CellValue, BindFailure>(cell),
            Err(error) => bound(*value) == Err::<CellValue, BindFailure>(error@.1) && error@.0
                == name@,
        },
{
    match value {
        JsonValue::Null => Err(QueryCompileError::UntypedNullBind { name: owned(name) }),
        JsonValue::Bool(value) => Ok(CellValue::Bool(*value)),
        JsonValue::String(value) => Ok(CellValue::String(value.clone())),
        JsonValue::Number(JsonNumber::Natural(value)) => if *value <= i64::MAX as u64 {
            Ok(CellValue::Int64(*value as i64))
        } else {
            Ok(CellValue::UInt64(*value))
        },
        JsonValue::Number(JsonNumber::Negative(value)) => Ok(CellValue::Int64(*value)),
        JsonValue::Number(JsonNumber::Double(value)) => if value.is_finite() {
            Ok(CellValue::Float64(*value))
        } else {
            Err(QueryCompileError::NumericBindOverflow { name: owned(name) })
        },
        JsonValue::Array(_) => Err(QueryCompileError::UnsupportedBindValue { name: owned(name) }),
        JsonValue::Object(_) => Err(QueryCompileError::UnsupportedBindValue { name: owned(name) }),
    }
}

/// The first parameter that cannot be bound in any query, in the order of the query
/// names and then of the parameter names.
pub open spec fn first_query_failure(queries: Seq<(Seq<char>, QueryConfig)>) -> Option<
    (Seq<char>, BindFailure),
>
    decreases queries.len(),
{
    if queries.len() == 0 {
        None
    } else {
        let earlier = first_query_failure(queries.drop_last());
        if earlier is Some {
            earlier
        } else {
            first_failure(queries.last().1.parameters@)
        }
    }
}

proof fn lemma_first_query_failure(queries: Seq<(Seq<char>, QueryConfig)>, count: nat)
    requires
        count <= queries.len(),
        first_query_failure(queries.take(count as int)) is Some,
    ensures
        first_query_failure(queries) == first_query_failure(queries.take(count as int)),
    decreases queries.len(),
{
    if count == queries.len() {
        assert(queries.take(count as int) =~= queries);
    } else {
        assert(queries.drop_last().take(count as int) =~= queries.take(count as int));
        lemma_first_query_failure(queries.drop_last(), count);
    }
}

/// Compiles every configured query while retaining stable map order.
pub fn compile_queries(queries: NameMap<QueryConfig>) -> (r: Result<
    Vec<CompiledQuery>,
    QueryCompileError,
>)
    ensures
        match r {
            Ok(plans_made) => {
                &&& first_query_failure(queries@) is None
                &&& plans_made@.len() == queries@.len()
                &&& forall|i: int|
                    0 <= i < queries@.len() ==> plans(
                        #[trigger] plans_made@[i],
                        queries@[i].0,
                        queries@[i].1,
                    )
            },
            Err(error) => first_query_failure(queries@) == Some(error@),
        },
{
    let ghost all = queries@;
    let mut entries = queries.into_entries();
    let mut plans_made: Vec<CompiledQuery> = Vec::new();
    let ghost mut done: nat = 0;
    assert(all.skip(0) =~= all);
    assert(all.take(0) =~= Seq::empty());
    while entries.len() > 0
        invariant
            all == queries@,
            done <= all.len(),
            entries@.map_values(|entry: (String, QueryConfig)| (entry.0@, entry.1)) == all.skip(
                done as int,
            ),
            plans_made@.len() == done,
            first_query_failure(all.take(done as int)) is None,
            forall|i: int|
                0 <= i < done ==> plans(#[trigger] plans_made@[i], all[i].0, all[i].1),
        decreases entries@.len(),
    {
        let ghost before = entries@;
        let ghost view = before.map_values(|entry: (String, QueryConfig)| (entry.0@, entry.1));
        assert(view.len() == all.skip(done as int).len());
        let (name, config) = entries.remove(0);
        proof {
            assert(view[0] == all[done as int]);
            let next = all.take(done as int + 1);
            assert(next.drop_last() =~= all.take(done as int));
            assert(next.last() == all[done as int]);
            assert(entries@.map_values(|entry: (String, QueryConfig)| (entry.0@, entry.1))
                =~= all.skip(done as int + 1)) by {
                assert forall|i: int| 0 <= i < entries@.len() implies (
                    (#[trigger] entries@[i]).0@,
                    entries@[i].1,
                ) == all.skip(done as int + 1)[i] by {
                    assert(entries@[i] == before[i + 1]);
                    assert(view[i + 1] == all.skip(done as int)[i + 1]);
                }
            }
        }
        match CompiledQuery::compile(name, config) {
            Err(error) => {
                proof {
                    lemma_first_query_failure(all, (done + 1) as nat);
                }
                return Err(error);
            },
            Ok(plan) => {
                plans_made.push(plan);
            },
        }
        proof {
            done = done + 1;
        }
    }
    assert(all.skip(done as int).len() == 0);
    assert(all.take(done as int) =~= all);
    Ok(plans_made)
}

/// What a parameter binds as is the very value that was written: an integer as an integer of
/// the same value, signed wherever it fits, and a boolean, a text or a double as itself.
pub proof fn law_binds_keep_their_values(value: JsonValue)
    ensures
        match (value, bound(value)) {
            (JsonValue::Bool(b), Ok(cell)) => cell == CellValue::Bool(b),
            (JsonValue::String(s), Ok(cell)) => cell matches CellValue::String(t) && t@ == s@,
            (JsonValue::Number(JsonNumber::Natural(n)), Ok(cell)) => match cell {
                CellValue::Int64(m) => m as int == n as int,
                CellValue::UInt64(m) => m as int == n as int && n > 0x7fff_ffff_ffff_ffff,
                _ => false,
            },
            (JsonValue::Number(JsonNumber::Negative(n)), Ok(cell)) => cell matches CellValue::Int64(
                m,
            ) && m as int == n as int,
            (JsonValue::Number(JsonNumber::Double(d)), Ok(cell)) => cell matches CellValue::Float64(
                e,
            ) && e.bits == d.bits,
            (_, Ok(_)) => false,
            (_, Err(_)) => true,
        },
{
}

/// Booleans, texts, integers and finite doubles can be bound. A null cannot for want of a
/// type, a list or an object for not being a scalar, and another double for its range.
pub proof fn law_scalars_can_be_bound(value: JsonValue)
    ensures
        value is Bool || value is String ==> bound(value) is Ok,
        value matches JsonValue::Number(number) ==> match number {
            JsonNumber::Double(d) => if double::finite(d.bits) {
                bound(value) is Ok
            } else {
                bound(value) == Err::<CellValue, BindFailure>(BindFailure::Overflow)
            },
            _ => bound(value) is Ok,
        },
        value is Null <==> bound(value) == Err::<CellValue, BindFailure>(BindFailure::UntypedNull),
        value is Array || value is Object <==> bound(value) == Err::<CellValue, BindFailure>(
            BindFailure::Unsupported,
        ),
{
}

/// The failure that is reported is that of the first parameter that cannot be bound: every
/// one before it can. None is reported exactly when all can be bound.
pub proof fn law_first_failure_is_the_first(parameters: Seq<(Seq<char>, JsonValue)>)
    ensures
        first_failure(parameters) is None <==> (forall|i: int|
            0 <= i < parameters.len() ==> bound((#[trigger] parameters[i]).1) is Ok),
        first_failure(parameters) matches Some((name, failure)) ==> exists|i: int|
            0 <= i < parameters.len() && (#[trigger] parameters[i]).0 == name && bound(
                parameters[i].1,
            ) == Err::<CellValue, BindFailure>(failure) && forall|j: int|
                0 <= j < i ==> bound((#[trigger] parameters[j]).1) is Ok,
    decreases parameters.len(),
{
    if parameters.len() > 0 {
        let rest = parameters.drop_last();
        law_first_failure_is_the_first(rest);
        assert forall|i: int| 0 <= i < rest.len() implies rest[i] == #[trigger] parameters[i] by {}
        if first_failure(rest) is Some {
            let (name, failure) = first_failure(rest)->0;
            let at = choose|i: int|
                0 <= i < rest.len() && (#[trigger] rest[i]).0 == name && bound(rest[i].1) == Err::<
                    CellValue,
                    BindFailure,
                >(failure) && forall|j: int| 0 <= j < i ==> bound((#[trigger] rest[j]).1) is Ok;
            assert(parameters[at] == rest[at]);
            assert forall|j: int| 0 <= j < at implies bound((#[trigger] parameters[j]).1) is Ok by {
                assert(rest[j] == parameters[j]);
            }
        } else {
            assert forall|j: int| 0 <= j < rest.len() implies bound(
                (#[trigger] parameters[j]).1,
            ) is Ok by {
                assert(rest[j] == parameters[j]);
            }
            assert(parameters[parameters.len() - 1] == parameters.last());
        }
    }
}

/// Queries compile exactly when every parameter of every query can be bound.
pub proof fn law_queries_compile_together(queries: Seq<(Seq<char>, QueryConfig)>)
    ensures
        first_query_failure(queries) is None <==> (forall|q: int, i: int|
            #![trigger queries[q].1.parameters@[i]]
            0 <= q < queries.len() && 0 <= i < queries[q].1.parameters@.len() ==> bound(
                queries[q].1.parameters@[i].1,
            ) is Ok),
    decreases queries.len(),
{
    if queries.len() > 0 {
        let rest = queries.drop_last();
        let last = queries.last().1.parameters@;
        law_queries_compile_together(rest);
        law_first_failure_is_the_first(last);
        if first_query_failure(queries) is None {
            assert forall|q: int, i: int|
                #![trigger queries[q].1.parameters@[i]]
                0 <= q < queries.len() && 0 <= i < queries[q].1.parameters@.len() implies bound(
                queries[q].1.parameters@[i].1,
            ) is Ok by {
                if q < rest.len() {
                    assert(rest[q].1.parameters@[i] == queries[q].1.parameters@[i]);
                } else {
                    assert(last[i] == queries[q].1.parameters@[i]);
                }
            }
        } else {
            if first_query_failure(rest) is Some {
                let (q, i) = choose|q: int, i: int|
                    #![trigger rest[q].1.parameters@[i]]
                    0 <= q < rest.len() && 0 <= i < rest[q].1.parameters@.len() && !(bound(
                        rest[q].1.parameters@[i].1,
                    ) is Ok);
                assert(queries[q].1.parameters@[i] == rest[q].1.parameters@[i]);
            } else {
                let i = choose|i: int| 0 <= i < last.len() && !(bound((#[trigger] last[i]).1) is Ok);
                assert(queries[queries.len() - 1].1.parameters@[i] == last[i]);
            }
        }
    }
}

/// A plan keeps the configured statement, interval, timeout, row limit, output and error
/// policy, and binds one value for each parameter, under its name and in its place.
pub proof fn law_plans_keep_their_settings(
    query: CompiledQuery,
    name: Seq<char>,
    config: QueryConfig,
)
    requires
        plans(query, name, config),
    ensures
        query.name@ == name,
        query.sql@ == config.sql@,
        query.interval@ == config.interval@,
        query.timeout@ == config.timeout@,
        query.max_rows == config.pagination.max_rows,
        query.output == config.output,
        query.error_policy == config.error_policy,
        query.binds@.len() == config.parameters@.len(),
        forall|i: int|
            0 <= i < query.binds@.len() ==> (#[trigger] query.binds@[i]).name@
                == config.parameters@[i].0 && match (
                config.parameters@[i].1,
                query.binds@[i].value,
            ) {
                (JsonValue::Bool(b), CellValue::Bool(c)) => b == c,
                (JsonValue::String(s), CellValue::String(t)) => s@ == t@,
                (
                    JsonValue::Number(JsonNumber::Natural(n)),
                    CellValue::Int64(m),
                ) => n as int == m as int,
                (
                    JsonValue::Number(JsonNumber::Natural(n)),
                    CellValue::UInt64(m),
                ) => n as int == m as int,
                (
                    JsonValue::Number(JsonNumber::Negative(n)),
                    CellValue::Int64(m),
                ) => n as int == m as int,
                (
                    JsonValue::Number(JsonNumber::Double(d)),
                    CellValue::Float64(e),
                ) => d.bits == e.bits,
                _ => false,
            },
{
}

} // verus!
