//! Validation of incremental queries.

use crate::postgresql::sql;
use crate::postgresql::sql::{
    column_name, keyset, ExprTree, ItemTree, OrderTree, OrderingTree, QueryTree, SelectTree,
    SqlExpression, SqlItem, SqlJoin, SqlOrder, SqlOrdering, SqlQuery, SqlRelation, SqlSelect,
    SqlStatement, SqlTable, StatementTree, TableTree,
};
use crate::postgresql::timestamp::ConfigError;
use crate::text::{append_text, chars_of, owned, same, text_of};
use vstd::prelude::*;

verus! {

/// Whether a bind is neither of the cursor's two.
pub open spec fn is_foreign(bind: Seq<char>) -> bool {
    bind != "$1"@ && bind != "$2"@
}

/// Whether there is a bind that is neither of the cursor's two.
pub open spec fn binds_more(binds: Seq<Seq<char>>) -> bool {
    exists|i: int| 0 <= i < binds.len() && is_foreign(#[trigger] binds[i])
}

/// Whether a query does more than one plain, unlimited, unlocked SELECT with the cursor's
/// binds does.
pub open spec fn does_more(query: QueryTree, select: SelectTree) -> bool {
    ||| query.queries != 1
    ||| binds_more(query.binds)
    ||| query.with
    ||| query.limit
    ||| query.fetch
    ||| query.locks > 0
    ||| select.into
    ||| select.distinct
}

/// Whether a query reads one table and what is joined to it by inner joins.
pub open spec fn reads_tables(from: Seq<TableTree>) -> bool {
    &&& from.len() == 1
    &&& from[0].relation is Plain
    &&& forall|i: int|
        0 <= i < from[0].joins.len() ==> joins_table(#[trigger] from[0].joins[i])
}

/// Whether a join is an inner join of a table.
pub open spec fn joins_table(join: (SqlRelation, SqlJoin)) -> bool {
    join.0 is Plain && !(join.1 is Other)
}

/// Whether an order is by the timestamp and then by the tie-breaker, both ascending.
pub open spec fn orders_by_cursor(
    items: Seq<OrderTree>,
    timestamp: Seq<char>,
    tie_breaker: Seq<char>,
) -> bool {
    &&& items.len() == 2
    &&& forall|i: int|
        0 <= i < items.len() ==> (#[trigger] items[i]).ascending != Some(false)
            && !items[i].with_fill
    &&& sql::column(items[0].expression) == Some(timestamp)
    &&& sql::column(items[1].expression) == Some(tie_breaker)
}

/// Why a selected item would pass for a cursor column that it is not, if it would.
pub open spec fn item_failure(item: ItemTree, cursor: Seq<char>, name: Seq<char>) -> Option<
    Seq<char>,
> {
    match item {
        ItemTree::Unnamed(expression) => if sql::column(expression) == Some(name)
            && expression.text != cursor {
            Some("cursor projection must match its ordering expression"@)
        } else {
            None
        },
        ItemTree::Aliased(alias, expression) => if alias.value == name && expression.text
            != cursor {
            Some("cursor projection aliases cannot change cursor identity"@)
        } else {
            None
        },
        _ => None,
    }
}

/// Whether a selected item brings a cursor column. A wildcard does where only one relation
/// is read.
pub open spec fn item_selects(item: ItemTree, cursor: Seq<char>, name: Seq<char>, lone: bool) -> bool {
    match item {
        ItemTree::Unnamed(expression) => sql::column(expression) == Some(name) && expression.text
            == cursor,
        ItemTree::Aliased(alias, expression) => alias.value == name && expression.text == cursor,
        ItemTree::Wildcard => lone,
        ItemTree::Qualified(text) => sql::before_last_dot(cursor) matches Some(qualifier) && text
            == qualifier + ".*"@,
    }
}

/// Why the first item that fails for a cursor column does, if one does.
pub open spec fn first_failure(items: Seq<ItemTree>, cursor: Seq<char>, name: Seq<char>) -> Option<
    Seq<char>,
>
    decreases items.len(),
{
    if items.len() == 0 {
        None
    } else {
        match first_failure(items.drop_last(), cursor, name) {
            Some(message) => Some(message),
            None => item_failure(items.last(), cursor, name),
        }
    }
}

/// Why a projection does not bring a cursor column, if it does not.
pub open spec fn projection_failure(
    items: Seq<ItemTree>,
    cursor: Seq<char>,
    name: Seq<char>,
    lone: bool,
) -> Option<Seq<char>> {
    if first_failure(items, cursor, name) is Some {
        first_failure(items, cursor, name)
    } else if exists|i: int| 0 <= i < items.len() && item_selects(#[trigger] items[i], cursor, name, lone) {
        None
    } else {
        Some("cursor columns must be selected"@)
    }
}

/// Whether a condition requires rows to be after the cursor.
pub open spec fn is_bounded(selection: Option<ExprTree>, timestamp: Seq<char>, tie_breaker: Seq<char>) -> bool {
    selection matches Some(condition) && sql::requires_after_cursor(
        condition,
        timestamp,
        tie_breaker,
    )
}

/// Why a query cannot be polled by its cursor, if it cannot.
pub open spec fn query_failure(query: QueryTree, timestamp: Seq<char>, tie_breaker: Seq<char>) -> Option<
    Seq<char>,
> {
    match query.select {
        None => Some("set operations are not supported"@),
        Some(select) => if does_more(query, select) {
            Some("unsupported query shape, bind, row lock or row limit"@)
        } else if !reads_tables(select.from) {
            Some("only tables and inner joins are supported"@)
        } else {
            match query.order {
                OrderingTree::Absent => Some("cursor ORDER BY is required"@),
                OrderingTree::Other => Some("cursor ORDER BY expressions are required"@),
                OrderingTree::Expressions(items) => order_failure(
                    select,
                    items,
                    timestamp,
                    tie_breaker,
                ),
            }
        },
    }
}

/// Why a SELECT with this order cannot be polled by its cursor, if it cannot.
pub open spec fn order_failure(
    select: SelectTree,
    items: Seq<OrderTree>,
    timestamp: Seq<char>,
    tie_breaker: Seq<char>,
) -> Option<Seq<char>> {
    let lone = select.from[0].joins.len() == 0;
    if !orders_by_cursor(items, timestamp, tie_breaker) {
        Some("ORDER BY must be ascending timestamp then tie-breaker"@)
    } else if !is_bounded(
        select.selection,
        items[0].expression.text,
        items[1].expression.text,
    ) {
        Some("WHERE must enforce timestamp > $1 OR (timestamp = $1 AND tie_breaker > $2)"@)
    } else {
        match projection_failure(
            select.projection,
            items[0].expression.text,
            timestamp,
            lone,
        ) {
            Some(message) => Some(message),
            None => projection_failure(
                select.projection,
                items[1].expression.text,
                tie_breaker,
                lone,
            ),
        }
    }
}

/// Why a text's statements cannot be polled, if they cannot.
pub open spec fn statements_failure(
    statements: Seq<StatementTree>,
    timestamp: Seq<char>,
    tie_breaker: Seq<char>,
) -> Option<Seq<char>> {
    if statements.len() != 1 {
        Some("exactly one SELECT is required"@)
    } else {
        match statements[0] {
            StatementTree::Other => Some("only SELECT queries are supported"@),
            StatementTree::Query(query) => query_failure(query, timestamp, tie_breaker),
        }
    }
}

fn has_foreign(binds: &Vec<String>) -> (found: bool)
    ensures
        found == binds_more(binds@.map_values(|bind: String| bind@)),
{
    let ghost all = binds@.map_values(|bind: String| bind@);
    let mut i: usize = 0;
    while i < binds.len()
        invariant
            i <= binds@.len(),
            all == binds@.map_values(|bind: String| bind@),
            forall|j: int| 0 <= j < i ==> !is_foreign(#[trigger] all[j]),
        decreases binds.len() - i,
    {
        let bind = binds[i].as_str();
        assert(all[i as int] == bind@);
        if !same(bind, "$1") && !same(bind, "$2") {
            assert(is_foreign(all[i as int]));
            return true;
        }
        i += 1;
    }
    false
}

fn only_tables(from: &Vec<SqlTable>) -> (found: bool)
    ensures
        found == reads_tables(from@.map_values(|table: SqlTable| table@)),
{
    if from.len() != 1 {
        return false;
    }
    let ghost tree = from@.map_values(|table: SqlTable| table@)[0];
    assert(tree == from@[0]@);
    let table = &from[0];
    match table.relation {
        SqlRelation::Plain => {},
        _ => {
            return false;
        },
    }
    let mut i: usize = 0;
    while i < table.joins.len()
        invariant
            i <= table.joins@.len(),
            forall|j: int| 0 <= j < i ==> joins_table(#[trigger] table.joins@[j]),
            tree.joins == table.joins@,
            from@.map_values(|table: SqlTable| table@)[0] == tree,
        decreases table.joins.len() - i,
    {
        let (relation, join) = table.joins[i];
        let inner = match join {
            SqlJoin::Inner => true,
            SqlJoin::Bare => true,
            SqlJoin::Other => false,
        };
        if relation != SqlRelation::Plain || !inner {
            assert(!joins_table(tree.joins[i as int]));
            return false;
        }
        i += 1;
    }
    true
}

fn names(expression: &SqlExpression, wanted: &str) -> (found: bool)
    ensures
        found == (sql::column(expression@) == Some(wanted@)),
{
    match column_name(expression) {
        Some(name) => same(name.as_str(), wanted),
        None => false,
    }
}

fn ordered(items: &Vec<SqlOrder>, timestamp: &str, tie_breaker: &str) -> (found: bool)
    ensures
        found == orders_by_cursor(
            items@.map_values(|item: SqlOrder| item@),
            timestamp@,
            tie_breaker@,
        ),
{
    if items.len() != 2 {
        return false;
    }
    let ghost trees = items@.map_values(|item: SqlOrder| item@);
    assert(trees[0] == items@[0]@);
    assert(trees[1] == items@[1]@);
    let ascending = |i: usize| -> (found: bool)
        requires
            i < items@.len(),
        ensures
            found == (items@[i as int].ascending != Some(false) && !items@[i as int].with_fill),
        {
            match items[i].ascending {
                Some(ascending) => ascending && !items[i].with_fill,
                None => !items[i].with_fill,
            }
        };
    ascending(0) && ascending(1) && names(&items[0].expression, timestamp) && names(
        &items[1].expression,
        tie_breaker,
    )
}

proof fn lemma_before_last_dot(text: Seq<char>, at: int)
    requires
        0 <= at < text.len(),
        text[at] == '.',
        forall|j: int| at < j < text.len() ==> text[j] != '.',
    ensures
        sql::before_last_dot(text) == Some(text.take(at)),
    decreases text.len(),
{
    if at == text.len() - 1 {
        assert(text.drop_last() =~= text.take(at));
    } else {
        lemma_before_last_dot(text.drop_last(), at);
        assert(text.drop_last().take(at) =~= text.take(at));
    }
}

proof fn lemma_no_dot(text: Seq<char>)
    requires
        forall|j: int| 0 <= j < text.len() ==> text[j] != '.',
    ensures
        sql::before_last_dot(text) is None,
    decreases text.len(),
{
    if text.len() > 0 {
        lemma_no_dot(text.drop_last());
    }
}

/// What stands before the last dot, if there is a dot.
pub fn qualifier(text: &str) -> (r: Option<String>)
    ensures
        match r {
            Some(before) => sql::before_last_dot(text@) == Some(before@),
            None => sql::before_last_dot(text@) is None,
        },
{
    let chars = chars_of(text);
    let mut i: usize = chars.len();
    while i > 0
        invariant
            i <= chars@.len(),
            chars@ == text@,
            forall|j: int| i <= j < chars@.len() ==> chars@[j] != '.',
        decreases i,
    {
        i -= 1;
        if chars[i] == '.' {
            proof {
                lemma_before_last_dot(text@, i as int);
            }
            assert(chars@.subrange(0, i as int) =~= text@.take(i as int));
            return Some(text_of(&chars, 0, i));
        }
    }
    proof {
        lemma_no_dot(text@);
    }
    None
}

fn check_item(item: &SqlItem, cursor: &str, name: &str) -> (r: Result<(), ConfigError>)
    ensures
        match r {
            Ok(()) => item_failure(item@, cursor@, name@) is None,
            Err(error) => item_failure(item@, cursor@, name@) == Some(error.message@),
        },
{
    match item {
        SqlItem::Unnamed(expression) => {
            if names(expression, name) && !same(expression.text.as_str(), cursor) {
                return Err(
                    ConfigError { message: "cursor projection must match its ordering expression" },
                );
            }
            Ok(())
        },
        SqlItem::Aliased(alias, expression) => {
            if same(alias.value.as_str(), name) && !same(expression.text.as_str(), cursor) {
                return Err(
                    ConfigError {
                        message: "cursor projection aliases cannot change cursor identity",
                    },
                );
            }
            Ok(())
        },
        _ => Ok(()),
    }
}

fn selects(item: &SqlItem, cursor: &str, name: &str, lone: bool) -> (found: bool)
    ensures
        found == item_selects(item@, cursor@, name@, lone),
{
    match item {
        SqlItem::Unnamed(expression) => names(expression, name) && same(
            expression.text.as_str(),
            cursor,
        ),
        SqlItem::Aliased(alias, expression) => same(alias.value.as_str(), name) && same(
            expression.text.as_str(),
            cursor,
        ),
        SqlItem::Wildcard => lone,
        SqlItem::Qualified(text) => match qualifier(cursor) {
            None => false,
            Some(before) => {
                let mut every = before;
                append_text(&mut every, ".*");
                same(text.as_str(), every.as_str())
            },
        },
    }
}

proof fn lemma_first_failure(items: Seq<ItemTree>, cursor: Seq<char>, name: Seq<char>, count: nat)
    requires
        count <= items.len(),
        first_failure(items.take(count as int), cursor, name) is Some,
    ensures
        first_failure(items, cursor, name) == first_failure(
            items.take(count as int),
            cursor,
            name,
        ),
    decreases items.len(),
{
    if count == items.len() {
        assert(items.take(count as int) =~= items);
    } else {
        assert(items.drop_last().take(count as int) =~= items.take(count as int));
        lemma_first_failure(items.drop_last(), cursor, name, count);
    }
}

fn check_projection(items: &Vec<SqlItem>, cursor: &str, name: &str, lone: bool) -> (r: Result<
    (),
    ConfigError,
>)
    ensures
        ({
            let failure = projection_failure(
                items@.map_values(|item: SqlItem| item@),
                cursor@,
                name@,
                lone,
            );
            match r {
                Ok(()) => failure is None,
                Err(error) => failure == Some(error.message@),
            }
        }),
{
    let ghost trees = items@.map_values(|item: SqlItem| item@);
    let mut found: bool = false;
    let mut i: usize = 0;
    while i < items.len()
        invariant
            i <= items@.len(),
            trees == items@.map_values(|item: SqlItem| item@),
            first_failure(trees.take(i as int), cursor@, name@) is None,
            found == exists|j: int|
                0 <= j < i && item_selects(#[trigger] trees[j], cursor@, name@, lone),
        decreases items.len() - i,
    {
        assert(trees[i as int] == items@[i as int]@);
        let ghost next = trees.take(i + 1);
        assert(next.drop_last() =~= trees.take(i as int));
        assert(next.last() == trees[i as int]);
        match check_item(&items[i], cursor, name) {
            Err(error) => {
                proof {
                    lemma_first_failure(trees, cursor@, name@, (i + 1) as nat);
                }
                return Err(error);
            },
            Ok(()) => {},
        }
        if selects(&items[i], cursor, name, lone) {
            assert(item_selects(trees[i as int], cursor@, name@, lone));
            found = true;
        }
        i += 1;
    }
    assert(trees.take(items@.len() as int) =~= trees);
    if !found {
        return Err(ConfigError { message: "cursor columns must be selected" });
    }
    Ok(())
}

fn check_order(
    select: &SqlSelect,
    items: &Vec<SqlOrder>,
    timestamp: &str,
    tie_breaker: &str,
) -> (r: Result<(), ConfigError>)
    requires
        reads_tables(select@.from),
    ensures
        ({
            let failure = order_failure(
                select@,
                items@.map_values(|item: SqlOrder| item@),
                timestamp@,
                tie_breaker@,
            );
            match r {
                Ok(()) => failure is None,
                Err(error) => failure == Some(error.message@),
            }
        }),
{
    if !ordered(items, timestamp, tie_breaker) {
        return Err(
            ConfigError { message: "ORDER BY must be ascending timestamp then tie-breaker" },
        );
    }
    let ghost trees = items@.map_values(|item: SqlOrder| item@);
    assert(trees[0] == items@[0]@);
    assert(trees[1] == items@[1]@);
    let first = items[0].expression.text.as_str();
    let second = items[1].expression.text.as_str();
    let bounded: bool = match &select.selection {
        Some(condition) => keyset(condition, first, second),
        None => false,
    };
    if !bounded {
        return Err(
            ConfigError {
                message:
                    "WHERE must enforce timestamp > $1 OR (timestamp = $1 AND tie_breaker > $2)",
            },
        );
    }
    assert(select@.from[0] == select.from@[0]@);
    let lone: bool = select.from[0].joins.len() == 0;
    match check_projection(&select.projection, first, timestamp, lone) {
        Err(error) => Err(error),
        Ok(()) => check_projection(&select.projection, second, tie_breaker, lone),
    }
}

/// Checks that a query can be polled by its cursor.
pub fn validate_query(query: &SqlQuery, timestamp: &str, tie_breaker: &str) -> (r: Result<
    (),
    ConfigError,
>)
    ensures
        match r {
            Ok(()) => query_failure(query@, timestamp@, tie_breaker@) is None,
            Err(error) => query_failure(query@, timestamp@, tie_breaker@) == Some(error.message@),
        },
{
    let select = match &query.select {
        None => {
            return Err(ConfigError { message: "set operations are not supported" });
        },
        Some(select) => select,
    };
    if query.queries != 1 || has_foreign(&query.binds) || query.with || query.limit || query.fetch
        || query.locks > 0 || select.into || select.distinct {
        return Err(
            ConfigError { message: "unsupported query shape, bind, row lock or row limit" },
        );
    }
    if !only_tables(&select.from) {
        return Err(ConfigError { message: "only tables and inner joins are supported" });
    }
    match &query.order {
        SqlOrdering::Absent => Err(ConfigError { message: "cursor ORDER BY is required" }),
        SqlOrdering::Other => Err(
            ConfigError { message: "cursor ORDER BY expressions are required" },
        ),
        SqlOrdering::Expressions(items) => check_order(select, items, timestamp, tie_breaker),
    }
}

/// Checks that a text's statements are one query that can be polled by its cursor, and
/// gives the query's canonical text.
pub fn validate_statements(
    statements: &Vec<SqlStatement>,
    timestamp: &str,
    tie_breaker: &str,
) -> (r: Result<String, ConfigError>)
    ensures
        ({
            let trees = statements@.map_values(|statement: SqlStatement| statement@);
            let failure = statements_failure(trees, timestamp@, tie_breaker@);
            match r {
                Ok(text) => failure is None && text@ == trees[0]->Query_0.text,
                Err(error) => failure == Some(error.message@),
            }
        }),
{
    if statements.len() != 1 {
        return Err(ConfigError { message: "exactly one SELECT is required" });
    }
    assert(statements@.map_values(|statement: SqlStatement| statement@)[0] == statements@[0]@);
    match &statements[0] {
        SqlStatement::Other => Err(ConfigError { message: "only SELECT queries are supported" }),
        SqlStatement::Query(query) => match validate_query(query, timestamp, tie_breaker) {
            Err(error) => Err(error),
            Ok(()) => Ok(owned(query.text.as_str())),
        },
    }
}

/// A query that is accepted keeps to rows after the cursor and returns them in the cursor's
/// order.
pub proof fn law_accepted_query_is_incremental(
    query: QueryTree,
    timestamp: Seq<char>,
    tie_breaker: Seq<char>,
)
    requires
        query_failure(query, timestamp, tie_breaker) is None,
    ensures
        query.select matches Some(select) && query.order matches OrderingTree::Expressions(items)
            && {
            &&& query.queries == 1
            &&& orders_by_cursor(items, timestamp, tie_breaker)
            &&& is_bounded(select.selection, items[0].expression.text, items[1].expression.text)
            &&& forall|i: int|
                0 <= i < query.binds.len() ==> !is_foreign(#[trigger] query.binds[i])
        },
{
}

/// Whether a result that is sorted by some expressions may hold a row `a` before a row `b`,
/// given the value of each expression in each row: the first expression in which they differ
/// has the smaller value first, or the larger where it is descending.
pub open spec fn may_precede(
    items: Seq<OrderTree>,
    a: spec_fn(ExprTree) -> int,
    b: spec_fn(ExprTree) -> int,
) -> bool {
    forall|k: int|
        0 <= k < items.len() && (forall|j: int|
            0 <= j < k ==> a((#[trigger] items[j]).expression) == b(items[j].expression))
            ==> if (#[trigger] items[k]).ascending == Some(false) {
            a(items[k].expression) >= b(items[k].expression)
        } else {
            a(items[k].expression) <= b(items[k].expression)
        }
}

/// A query that is accepted is ordered by exactly two expressions, the timestamp column and
/// the tie-breaker column, neither of them descending or filled in.
pub proof fn law_accepted_order_is_by_two_ascending_columns(
    query: QueryTree,
    timestamp: Seq<char>,
    tie_breaker: Seq<char>,
)
    requires
        query_failure(query, timestamp, tie_breaker) is None,
    ensures
        query.order is Expressions,
        query.order->Expressions_0.len() == 2,
        query.order->Expressions_0[0].ascending != Some(false),
        query.order->Expressions_0[1].ascending != Some(false),
        !query.order->Expressions_0[0].with_fill,
        !query.order->Expressions_0[1].with_fill,
        sql::refers_to(query.order->Expressions_0[0].expression, timestamp),
        sql::refers_to(query.order->Expressions_0[1].expression, tie_breaker),
{
    let items = query.order->Expressions_0;
    sql::law_columns_are_named_by_their_last_part(items[0].expression, timestamp);
    sql::law_columns_are_named_by_their_last_part(items[1].expression, tie_breaker);
}

/// Rows that an accepted query returns, sorted as the query itself asks, stand in ascending
/// order of the timestamp and, where timestamps are equal, of the tie-breaker.
pub proof fn law_accepted_order_is_the_cursor_order(
    query: QueryTree,
    timestamp: Seq<char>,
    tie_breaker: Seq<char>,
    a: spec_fn(ExprTree) -> int,
    b: spec_fn(ExprTree) -> int,
    of_a: spec_fn(Seq<char>) -> int,
    of_b: spec_fn(Seq<char>) -> int,
)
    requires
        query_failure(query, timestamp, tie_breaker) is None,
        forall|e: ExprTree, name: Seq<char>| #[trigger]
            sql::refers_to(e, name) ==> a(e) == of_a(name) && b(e) == of_b(name),
        may_precede(query.order->Expressions_0, a, b),
    ensures
        of_a(timestamp) < of_b(timestamp) || (of_a(timestamp) == of_b(timestamp) && of_a(
            tie_breaker,
        ) <= of_b(tie_breaker)),
{
    law_accepted_order_is_by_two_ascending_columns(query, timestamp, tie_breaker);
    let items = query.order->Expressions_0;
    assert(sql::refers_to(items[0].expression, timestamp));
    assert(sql::refers_to(items[1].expression, tie_breaker));
    assert(items[0].ascending != Some(false));
    assert(items[1].ascending != Some(false));
}

/// A query that is accepted is one plain SELECT: no second query, common table, limit, row
/// lock, target table or DISTINCT, from one table and inner joins of tables, and with no
/// other bind than the cursor's two.
pub proof fn law_accepted_query_is_plain(
    query: QueryTree,
    timestamp: Seq<char>,
    tie_breaker: Seq<char>,
)
    requires
        query_failure(query, timestamp, tie_breaker) is None,
    ensures
        query.queries == 1,
        !query.with,
        !query.limit,
        !query.fetch,
        query.locks == 0,
        query.select is Some,
        !query.select->0.into,
        !query.select->0.distinct,
        query.select->0.selection is Some,
        query.select->0.from.len() == 1,
        query.select->0.from[0].relation == SqlRelation::Plain,
        forall|i: int|
            0 <= i < query.select->0.from[0].joins.len() ==> {
                &&& (#[trigger] query.select->0.from[0].joins[i]).0 == SqlRelation::Plain
                &&& query.select->0.from[0].joins[i].1 == SqlJoin::Inner
                    || query.select->0.from[0].joins[i].1 == SqlJoin::Bare
            },
        forall|i: int|
            0 <= i < query.binds.len() ==> #[trigger] query.binds[i] == seq!['$', '1']
                || query.binds[i] == seq!['$', '2'],
{
    reveal_strlit("$1");
    reveal_strlit("$2");
    assert("$1"@ =~= seq!['$', '1']);
    assert("$2"@ =~= seq!['$', '2']);
    let joins = query.select->0.from[0].joins;
    assert forall|i: int| 0 <= i < joins.len() implies {
        &&& (#[trigger] joins[i]).0 == SqlRelation::Plain
        &&& joins[i].1 == SqlJoin::Inner || joins[i].1 == SqlJoin::Bare
    } by {
        assert(joins_table(joins[i]));
    }
    assert forall|i: int| 0 <= i < query.binds.len() implies #[trigger] query.binds[i]
        == seq!['$', '1'] || query.binds[i] == seq!['$', '2'] by {
        assert(!is_foreign(query.binds[i]));
    }
}

/// Whether a selected item brings the expression of this text under this name.
pub open spec fn brings(item: ItemTree, written: Seq<char>, name: Seq<char>, lone: bool) -> bool {
    match item {
        ItemTree::Unnamed(expression) => expression.text == written && sql::refers_to(
            expression,
            name,
        ),
        ItemTree::Aliased(alias, expression) => expression.text == written && alias.value == name,
        ItemTree::Wildcard => lone,
        ItemTree::Qualified(all) => all.len() >= 2 && all[all.len() - 2] == '.' && all[all.len() - 1]
            == '*' && all.len() - 2 < written.len() && all.take(all.len() - 1) == written.take(
            all.len() - 1,
        ) && (forall|i: int| all.len() - 1 <= i < written.len() ==> #[trigger] written[i] != '.'),
    }
}

/// A query that is accepted selects both columns that it is ordered by, written as they are
/// there and under the cursor's names, and selects nothing else under those names.
pub proof fn law_accepted_query_selects_its_cursor(
    query: QueryTree,
    timestamp: Seq<char>,
    tie_breaker: Seq<char>,
)
    requires
        query_failure(query, timestamp, tie_breaker) is None,
    ensures
        ({
            let items = query.select->0.projection;
            let first = query.order->Expressions_0[0].expression.text;
            let second = query.order->Expressions_0[1].expression.text;
            let lone = query.select->0.from[0].joins.len() == 0;
            &&& exists|i: int| 0 <= i < items.len() && brings(#[trigger] items[i], first, timestamp, lone)
            &&& exists|i: int| 0 <= i < items.len() && brings(#[trigger] items[i], second, tie_breaker, lone)
            &&& forall|i: int|
                0 <= i < items.len() ==> match #[trigger] items[i] {
                    ItemTree::Unnamed(e) => (sql::refers_to(e, timestamp) ==> e.text == first) && (
                    sql::refers_to(e, tie_breaker) ==> e.text == second),
                    ItemTree::Aliased(alias, e) => (alias.value == timestamp ==> e.text == first)
                        && (alias.value == tie_breaker ==> e.text == second),
                    _ => true,
                }
        }),
{
    let items = query.select->0.projection;
    let first = query.order->Expressions_0[0].expression.text;
    let second = query.order->Expressions_0[1].expression.text;
    let lone = query.select->0.from[0].joins.len() == 0;
    lemma_selected_is_brought(items, first, timestamp, lone);
    lemma_selected_is_brought(items, second, tie_breaker, lone);
}

proof fn lemma_selected_is_brought(
    items: Seq<ItemTree>,
    cursor: Seq<char>,
    name: Seq<char>,
    lone: bool,
)
    requires
        projection_failure(items, cursor, name, lone) is None,
    ensures
        exists|i: int| 0 <= i < items.len() && brings(#[trigger] items[i], cursor, name, lone),
        forall|i: int|
            0 <= i < items.len() ==> match #[trigger] items[i] {
                ItemTree::Unnamed(e) => sql::refers_to(e, name) ==> e.text == cursor,
                ItemTree::Aliased(alias, e) => alias.value == name ==> e.text == cursor,
                _ => true,
            },
{
    reveal_strlit(".*");
    let at = choose|i: int|
        0 <= i < items.len() && item_selects(#[trigger] items[i], cursor, name, lone);
    match items[at] {
        ItemTree::Unnamed(e) => {
            sql::law_columns_are_named_by_their_last_part(e, name);
        },
        ItemTree::Qualified(all) => {
            sql::law_last_dot_is_the_last(cursor);
            let qualifier = sql::before_last_dot(cursor)->0;
            assert(all == qualifier + ".*"@);
            assert(all[all.len() - 2] == ".*"@[0]);
            assert(all[all.len() - 1] == ".*"@[1]);
            assert(all.take(all.len() - 1) =~= cursor.take(all.len() - 1));
        },
        _ => {},
    }
    assert(brings(items[at], cursor, name, lone));
    assert forall|i: int| 0 <= i < items.len() implies match #[trigger] items[i] {
        ItemTree::Unnamed(e) => sql::refers_to(e, name) ==> e.text == cursor,
        ItemTree::Aliased(alias, e) => alias.value == name ==> e.text == cursor,
        _ => true,
    } by {
        lemma_no_item_fails(items, cursor, name, i);
        match items[i] {
            ItemTree::Unnamed(e) => {
                sql::law_columns_are_named_by_their_last_part(e, name);
            },
            _ => {},
        }
    }
}

proof fn lemma_no_item_fails(items: Seq<ItemTree>, cursor: Seq<char>, name: Seq<char>, at: int)
    requires
        first_failure(items, cursor, name) is None,
        0 <= at < items.len(),
    ensures
        item_failure(items[at], cursor, name) is None,
    decreases items.len(),
{
    if at < items.len() - 1 {
        lemma_no_item_fails(items.drop_last(), cursor, name, at);
    }
}

/// A query is accepted whenever it is one plain SELECT over tables, ordered by the two cursor
/// columns, neither descending, bounded by the cursor, and selects those columns and nothing
/// else under their names.
pub proof fn law_incremental_query_is_accepted(
    query: QueryTree,
    select: SelectTree,
    items: Seq<OrderTree>,
    timestamp: Seq<char>,
    tie_breaker: Seq<char>,
)
    requires
        query.select == Some(select),
        query.queries == 1 && query.locks == 0,
        !query.with && !query.limit && !query.fetch && !select.into && !select.distinct,
        forall|i: int|
            0 <= i < query.binds.len() ==> #[trigger] query.binds[i] == seq!['$', '1']
                || query.binds[i] == seq!['$', '2'],
        select.from.len() == 1 && select.from[0].relation == SqlRelation::Plain,
        forall|i: int|
            0 <= i < select.from[0].joins.len() ==> (#[trigger] select.from[0].joins[i]).0
                == SqlRelation::Plain && select.from[0].joins[i].1 != SqlJoin::Other,
        query.order == OrderingTree::Expressions(items),
        items.len() == 2,
        items[0].ascending != Some(false) && items[1].ascending != Some(false),
        !items[0].with_fill && !items[1].with_fill,
        sql::refers_to(items[0].expression, timestamp),
        sql::refers_to(items[1].expression, tie_breaker),
        select.selection is Some,
        sql::requires_after_cursor(
            select.selection->0,
            items[0].expression.text,
            items[1].expression.text,
        ),
        forall|i: int|
            0 <= i < select.projection.len() ==> match #[trigger] select.projection[i] {
                ItemTree::Unnamed(e) => (sql::refers_to(e, timestamp) ==> e.text
                    == items[0].expression.text) && (sql::refers_to(e, tie_breaker) ==> e.text
                    == items[1].expression.text),
                ItemTree::Aliased(alias, e) => (alias.value == timestamp ==> e.text
                    == items[0].expression.text) && (alias.value == tie_breaker ==> e.text
                    == items[1].expression.text),
                _ => true,
            },
        exists|i: int|
            0 <= i < select.projection.len() && brings(
                #[trigger] select.projection[i],
                items[0].expression.text,
                timestamp,
                select.from[0].joins.len() == 0,
            ),
        exists|i: int|
            0 <= i < select.projection.len() && brings(
                #[trigger] select.projection[i],
                items[1].expression.text,
                tie_breaker,
                select.from[0].joins.len() == 0,
            ),
    ensures
        query_failure(query, timestamp, tie_breaker) is None,
{
    reveal_strlit("$1");
    reveal_strlit("$2");
    assert("$1"@ =~= seq!['$', '1']);
    assert("$2"@ =~= seq!['$', '2']);
    sql::law_columns_are_named_by_their_last_part(items[0].expression, timestamp);
    sql::law_columns_are_named_by_their_last_part(items[1].expression, tie_breaker);
    let lone = select.from[0].joins.len() == 0;
    lemma_brought_is_selected(select.projection, items[0].expression.text, timestamp, lone);
    lemma_brought_is_selected(select.projection, items[1].expression.text, tie_breaker, lone);
    assert(!binds_more(query.binds));
    assert(reads_tables(select.from));
    assert(orders_by_cursor(items, timestamp, tie_breaker));
}

proof fn lemma_brought_is_selected(
    items: Seq<ItemTree>,
    cursor: Seq<char>,
    name: Seq<char>,
    lone: bool,
)
    requires
        exists|i: int| 0 <= i < items.len() && brings(#[trigger] items[i], cursor, name, lone),
        forall|i: int|
            0 <= i < items.len() ==> match #[trigger] items[i] {
                ItemTree::Unnamed(e) => sql::refers_to(e, name) ==> e.text == cursor,
                ItemTree::Aliased(alias, e) => alias.value == name ==> e.text == cursor,
                _ => true,
            },
    ensures
        projection_failure(items, cursor, name, lone) is None,
{
    reveal_strlit(".*");
    let at = choose|i: int| 0 <= i < items.len() && brings(#[trigger] items[i], cursor, name, lone);
    match items[at] {
        ItemTree::Unnamed(e) => {
            sql::law_columns_are_named_by_their_last_part(e, name);
        },
        ItemTree::Qualified(all) => {
            sql::law_last_dot_is_the_last(cursor);
            let dot = all.len() - 2;
            assert(all.take(dot + 1)[dot] == cursor.take(dot + 1)[dot]);
            assert(cursor[dot] == '.');
            let qualifier = sql::before_last_dot(cursor)->0;
            assert(qualifier.len() == dot);
            assert(all =~= qualifier + ".*"@) by {
                assert forall|i: int| 0 <= i < all.len() implies all[i] == (qualifier + ".*"@)[i] by {
                    if i < dot {
                        assert(all.take(dot + 1)[i] == cursor.take(dot + 1)[i]);
                    }
                }
            }
        },
        _ => {},
    }
    assert(item_selects(items[at], cursor, name, lone));
    assert forall|i: int| 0 <= i < items.len() implies item_failure(
        #[trigger] items[i],
        cursor,
        name,
    ) is None by {
        match items[i] {
            ItemTree::Unnamed(e) => {
                sql::law_columns_are_named_by_their_last_part(e, name);
            },
            _ => {},
        }
    }
    lemma_none_fails(items, cursor, name);
}

proof fn lemma_none_fails(items: Seq<ItemTree>, cursor: Seq<char>, name: Seq<char>)
    requires
        forall|i: int|
            0 <= i < items.len() ==> item_failure(#[trigger] items[i], cursor, name) is None,
    ensures
        first_failure(items, cursor, name) is None,
    decreases items.len(),
{
    if items.len() > 0 {
        let rest = items.drop_last();
        assert forall|i: int| 0 <= i < rest.len() implies item_failure(
            #[trigger] rest[i],
            cursor,
            name,
        ) is None by {
            assert(rest[i] == items[i]);
        }
        lemma_none_fails(rest, cursor, name);
    }
}

/// A text is accepted exactly when it holds one statement and no more, and that is a query that
/// can be polled.
pub proof fn law_accepted_text_is_one_query(
    statements: Seq<StatementTree>,
    timestamp: Seq<char>,
    tie_breaker: Seq<char>,
)
    ensures
        statements_failure(statements, timestamp, tie_breaker) is None <==> statements.len() == 1
            && (statements[0] matches StatementTree::Query(query) && query_failure(
            query,
            timestamp,
            tie_breaker,
        ) is None),
{
}

} // verus!
