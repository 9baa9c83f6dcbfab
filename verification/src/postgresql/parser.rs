//! PostgreSQL statements as `sqlparser` reads them.
//!
//! A parsed statement is walked one layer at a time: each trusted function hands out the
//! fields of one node, and the walk over them is verified.

use crate::polling;
use crate::polling::WatermarkConfig;
use crate::postgresql::shape;
use crate::postgresql::shape::validate_statements;
use crate::postgresql::sql::{
    ExprTree, FormTree, ItemTree, NameTree, OrderTree, OrderingTree, QueryTree, SelectTree,
    SqlExpression, SqlForm, SqlItem, SqlJoin, SqlName, SqlOperator, SqlOrder, SqlOrdering,
    SqlQuery, SqlRelation, SqlSelect, SqlStatement, SqlTable, StatementTree, TableTree,
};
use crate::postgresql::timestamp::ConfigError;
use crate::text;
use crate::text::byte_len;
use core::ops::ControlFlow;
use sqlparser::ast::Visit;
use vstd::prelude::*;

verus! {

/// The longest statement, in bytes.
pub const MAX_STATEMENT_BYTES: usize = 65_536;

/// `sqlparser::ast::Statement`: a parsed statement.
#[verifier::external_type_specification]
#[verifier::external_body]
pub struct ExStatement(sqlparser::ast::Statement);

/// `sqlparser::ast::Query`: a parsed query.
#[verifier::external_type_specification]
#[verifier::external_body]
pub struct ExQuery(sqlparser::ast::Query);

/// `sqlparser::ast::With`: a `WITH` clause.
#[verifier::external_type_specification]
#[verifier::external_body]
pub struct ExWith(sqlparser::ast::With);

/// `sqlparser::ast::LimitClause`: a row limit.
#[verifier::external_type_specification]
#[verifier::external_body]
pub struct ExLimitClause(sqlparser::ast::LimitClause);

/// `sqlparser::ast::Fetch`: a `FETCH` clause.
#[verifier::external_type_specification]
#[verifier::external_body]
pub struct ExFetch(sqlparser::ast::Fetch);

/// `sqlparser::ast::LockClause`: a row lock.
#[verifier::external_type_specification]
#[verifier::external_body]
pub struct ExLockClause(sqlparser::ast::LockClause);

/// `sqlparser::ast::SetExpr`: the body of a query.
#[verifier::external_type_specification]
#[verifier::external_body]
pub struct ExSetExpr(sqlparser::ast::SetExpr);

/// `sqlparser::ast::Select`: one SELECT.
#[verifier::external_type_specification]
#[verifier::external_body]
pub struct ExSelect(sqlparser::ast::Select);

/// `sqlparser::ast::SelectInto`: an `INTO` clause.
#[verifier::external_type_specification]
#[verifier::external_body]
pub struct ExSelectInto(sqlparser::ast::SelectInto);

/// `sqlparser::ast::Distinct`: a `DISTINCT` clause.
#[verifier::external_type_specification]
#[verifier::external_body]
pub struct ExDistinct(sqlparser::ast::Distinct);

/// `sqlparser::ast::SelectItem`: a selected item.
#[verifier::external_type_specification]
#[verifier::external_body]
pub struct ExSelectItem(sqlparser::ast::SelectItem);

/// `sqlparser::ast::TableWithJoins`: a relation and what is joined to it.
#[verifier::external_type_specification]
#[verifier::external_body]
pub struct ExTableWithJoins(sqlparser::ast::TableWithJoins);

/// `sqlparser::ast::TableFactor`: a relation.
#[verifier::external_type_specification]
#[verifier::external_body]
pub struct ExTableFactor(sqlparser::ast::TableFactor);

/// `sqlparser::ast::TableFunctionArgs`: arguments of a table function.
#[verifier::external_type_specification]
#[verifier::external_body]
pub struct ExTableFunctionArgs(sqlparser::ast::TableFunctionArgs);

/// `sqlparser::ast::Join`: a joined relation.
#[verifier::external_type_specification]
#[verifier::external_body]
pub struct ExJoin(sqlparser::ast::Join);

/// `sqlparser::ast::JoinOperator`: how a relation is joined.
#[verifier::external_type_specification]
#[verifier::external_body]
pub struct ExJoinOperator(sqlparser::ast::JoinOperator);

/// `sqlparser::ast::OrderBy`: an order.
#[verifier::external_type_specification]
#[verifier::external_body]
pub struct ExOrderBy(sqlparser::ast::OrderBy);

/// `sqlparser::ast::OrderByExpr`: an expression to order by.
#[verifier::external_type_specification]
#[verifier::external_body]
pub struct ExOrderByExpr(sqlparser::ast::OrderByExpr);

/// `sqlparser::ast::WithFill`: how gaps of an order are filled.
#[verifier::external_type_specification]
#[verifier::external_body]
pub struct ExWithFill(sqlparser::ast::WithFill);

/// `sqlparser::ast::Expr`: an expression.
#[verifier::external_type_specification]
#[verifier::external_body]
pub struct ExExpr(sqlparser::ast::Expr);

/// `sqlparser::ast::Ident`: one part of a name.
#[verifier::external_type_specification]
#[verifier::external_body]
pub struct ExIdent(sqlparser::ast::Ident);

/// `sqlparser::ast::BinaryOperator`: an operator of two expressions.
#[verifier::external_type_specification]
#[verifier::external_body]
pub struct ExBinaryOperator(sqlparser::ast::BinaryOperator);

/// `sqlparser::ast::Value`: a literal or a bind.
#[verifier::external_type_specification]
#[verifier::external_body]
pub struct ExValue(sqlparser::ast::Value);

/// What a parsed statement is.
pub uninterp spec fn statement_tree(statement: sqlparser::ast::Statement) -> StatementTree;

/// What a parsed query is.
pub uninterp spec fn query_tree(query: sqlparser::ast::Query) -> QueryTree;

/// What a parsed SELECT is.
pub uninterp spec fn select_tree(select: sqlparser::ast::Select) -> SelectTree;

/// What a parsed item is.
pub uninterp spec fn item_tree(item: sqlparser::ast::SelectItem) -> ItemTree;

/// What a parsed relation with its joins is.
pub uninterp spec fn table_tree(table: sqlparser::ast::TableWithJoins) -> TableTree;

/// What a parsed relation is.
pub uninterp spec fn relation_tree(relation: sqlparser::ast::TableFactor) -> SqlRelation;

/// What a parsed join is.
pub uninterp spec fn join_tree(join: sqlparser::ast::Join) -> (SqlRelation, SqlJoin);

/// How a parsed join joins.
pub uninterp spec fn join_kind_tree(operator: sqlparser::ast::JoinOperator) -> SqlJoin;

/// What a parsed order is.
pub uninterp spec fn ordering_tree(order: sqlparser::ast::OrderBy) -> OrderingTree;

/// What a parsed expression to order by is.
pub uninterp spec fn order_tree(order: sqlparser::ast::OrderByExpr) -> OrderTree;

/// What a parsed expression is.
pub uninterp spec fn parsed_expr(expression: sqlparser::ast::Expr) -> ExprTree;

/// What one part of a parsed name is.
pub uninterp spec fn parsed_name(name: sqlparser::ast::Ident) -> NameTree;

/// What a parsed operator is.
pub uninterp spec fn parsed_operator(operator: sqlparser::ast::BinaryOperator) -> SqlOperator;

/// The bind that a parsed value is, if it is one.
pub uninterp spec fn parsed_bind(value: sqlparser::ast::Value) -> Option<Seq<char>>;

/// The SELECT that a query's body is, if it is one.
pub uninterp spec fn body_tree(body: sqlparser::ast::SetExpr) -> Option<SelectTree>;

/// The statements that `sqlparser` reads in a text under PostgreSQL's dialect, if it can.
pub uninterp spec fn parsed_statements(sql: Seq<char>) -> Option<Seq<StatementTree>>;

/// `sqlparser::parser::Parser::parse_sql` with `PostgreSqlDialect`: the statements of a
/// text, or an error when it cannot be read.
#[verifier::external_body]
fn parse_sql(sql: &str) -> (r: Option<Vec<sqlparser::ast::Statement>>)
    ensures
        match r {
            Some(statements) => parsed_statements(sql@) == Some(
                statements@.map_values(
                    |statement: sqlparser::ast::Statement| statement_tree(statement),
                ),
            ),
            None => parsed_statements(sql@) is None,
        },
{
    sqlparser::parser::Parser::parse_sql(&sqlparser::dialect::PostgreSqlDialect {  }, sql).ok()
}

/// The variants of `sqlparser::ast::Statement`: the query, if the statement is one.
#[verifier::external_body]
fn statement_layer(statement: &sqlparser::ast::Statement) -> (r: Option<&sqlparser::ast::Query>)
    ensures
        statement_tree(*statement) == match r {
            Some(query) => StatementTree::Query(query_tree(*query)),
            None => StatementTree::Other,
        },
{
    match statement {
        sqlparser::ast::Statement::Query(query) => Some(query),
        _ => None,
    }
}

/// The fields of a query.
struct QueryLayer<'a> {
    with: &'a Option<sqlparser::ast::With>,
    limit: &'a Option<sqlparser::ast::LimitClause>,
    fetch: &'a Option<sqlparser::ast::Fetch>,
    locks: &'a Vec<sqlparser::ast::LockClause>,
    body: &'a sqlparser::ast::SetExpr,
    order: &'a Option<sqlparser::ast::OrderBy>,
}

/// The fields of `sqlparser::ast::Query`: `with`, `limit_clause`, `fetch`, `locks`, `body`
/// and `order_by`.
#[verifier::external_body]
fn query_layer(query: &sqlparser::ast::Query) -> (r: QueryLayer<'_>)
    ensures
        query_tree(*query).with == (r.with is Some),
        query_tree(*query).limit == (r.limit is Some),
        query_tree(*query).fetch == (r.fetch is Some),
        query_tree(*query).locks == r.locks@.len(),
        query_tree(*query).select == body_tree(*r.body),
        query_tree(*query).order == match *r.order {
            Some(order) => ordering_tree(order),
            None => OrderingTree::Absent,
        },
{
    QueryLayer {
        with: &query.with,
        limit: &query.limit_clause,
        fetch: &query.fetch,
        locks: &query.locks,
        body: &query.body,
        order: &query.order_by,
    }
}

/// The `Display` form of `sqlparser::ast::Query`: the query's canonical text.
#[verifier::external_body]
fn query_text(query: &sqlparser::ast::Query) -> (r: String)
    ensures
        r@ == query_tree(*query).text,
{
    query.to_string()
}

/// Counts queries and collects binds on a walk over a query.
pub struct ShapeVisitor {
    queries: usize,
    binds: Vec<String>,
}

/// What a visitor has met.
pub struct ShapeModel {
    /// How many queries.
    pub queries: usize,
    /// The binds, in the order of the walk.
    pub binds: Seq<Seq<char>>,
}

impl View for ShapeVisitor {
    type V = ShapeModel;

    closed spec fn view(&self) -> ShapeModel {
        ShapeModel { queries: self.queries, binds: self.binds@.map_values(|bind: String| bind@) }
    }
}

/// A visitor after one more query. The count stops at the largest number.
pub open spec fn with_query(met: ShapeModel) -> ShapeModel {
    ShapeModel {
        queries: if met.queries < usize::MAX {
            (met.queries + 1) as usize
        } else {
            usize::MAX
        },
        ..met
    }
}

/// A visitor after one more expression, which counts where it is a bind.
pub open spec fn with_expression(met: ShapeModel, expression: ExprTree) -> ShapeModel {
    match expression.form {
        FormTree::Placeholder(bind) => ShapeModel { binds: met.binds.push(bind), ..met },
        _ => met,
    }
}

impl ShapeVisitor {
    fn note_query(&mut self)
        ensures
            final(self)@ == with_query(old(self)@),
    {
        self.queries = self.queries.saturating_add(1);
    }

    fn note_expression(&mut self, expression: &sqlparser::ast::Expr)
        ensures
            final(self)@ == with_expression(old(self)@, parsed_expr(*expression)),
    {
        match expr_layer(expression) {
            ExprLayer::Literal(value) => {
                match bind_of(value) {
                    Some(bind) => {
                        self.binds.push(bind.clone());
                        assert(self@.binds =~= old(self)@.binds.push(bind@));
                    },
                    None => {},
                }
            },
            _ => {},
        }
    }
}

impl sqlparser::ast::Visitor for ShapeVisitor {
    type Break = ();

    /// Counts the query, and lets the walk go on.
    fn pre_visit_query(&mut self, query: &sqlparser::ast::Query) -> (r: ControlFlow<()>)
        ensures
            final(self)@ == with_query(old(self)@),
            r == ControlFlow::<()>::Continue(()),
    {
        self.note_query();
        ControlFlow::Continue(())
    }

    /// Collects the bind that the expression is, if it is one, and lets the walk go on.
    fn pre_visit_expr(&mut self, expression: &sqlparser::ast::Expr) -> (r: ControlFlow<()>)
        ensures
            final(self)@ == with_expression(old(self)@, parsed_expr(*expression)),
            r == ControlFlow::<()>::Continue(()),
    {
        self.note_expression(expression);
        ControlFlow::Continue(())
    }
}

/// `sqlparser::ast::Visit::visit` of a query: it hands each query and each expression in
/// the tree to the visitor, from the query itself on. The visitor then has counted the
/// queries and collected the binds.
#[verifier::external_body]
fn walk(query: &sqlparser::ast::Query) -> (r: ShapeVisitor)
    ensures
        query_tree(*query).queries == r@.queries,
        query_tree(*query).binds == r@.binds,
{
    let mut visitor = ShapeVisitor { queries: 0, binds: Vec::new() };
    let _ = query.visit(&mut visitor);
    visitor
}

/// The variants of `sqlparser::ast::SetExpr`: the SELECT, if the body is one.
#[verifier::external_body]
fn body_layer(body: &sqlparser::ast::SetExpr) -> (r: Option<&sqlparser::ast::Select>)
    ensures
        body_tree(*body) == match r {
            Some(select) => Some(select_tree(*select)),
            None => None,
        },
{
    match body {
        sqlparser::ast::SetExpr::Select(select) => Some(select),
        _ => None,
    }
}

/// The fields of a SELECT.
struct SelectLayer<'a> {
    distinct: &'a Option<sqlparser::ast::Distinct>,
    into: &'a Option<sqlparser::ast::SelectInto>,
    projection: &'a Vec<sqlparser::ast::SelectItem>,
    from: &'a Vec<sqlparser::ast::TableWithJoins>,
    selection: &'a Option<sqlparser::ast::Expr>,
}

/// The fields of `sqlparser::ast::Select`: `distinct`, `into`, `projection`, `from` and
/// `selection`.
#[verifier::external_body]
fn select_layer(select: &sqlparser::ast::Select) -> (r: SelectLayer<'_>)
    ensures
        select_tree(*select) == (SelectTree {
            distinct: r.distinct is Some,
            into: r.into is Some,
            projection: r.projection@.map_values(
                |item: sqlparser::ast::SelectItem| item_tree(item),
            ),
            from: r.from@.map_values(|table: sqlparser::ast::TableWithJoins| table_tree(table)),
            selection: match *r.selection {
                Some(condition) => Some(parsed_expr(condition)),
                None => None,
            },
        }),
{
    SelectLayer {
        distinct: &select.distinct,
        into: &select.into,
        projection: &select.projection,
        from: &select.from,
        selection: &select.selection,
    }
}

/// The variants of a selected item.
enum ItemLayer<'a> {
    Unnamed(&'a sqlparser::ast::Expr),
    Aliased(&'a sqlparser::ast::Ident, &'a sqlparser::ast::Expr),
    Qualified,
    Wildcard,
}

/// The variants of `sqlparser::ast::SelectItem`, each with the fields that are read.
#[verifier::external_body]
fn item_layer(item: &sqlparser::ast::SelectItem) -> (r: ItemLayer<'_>)
    ensures
        match r {
            ItemLayer::Unnamed(expression) => item_tree(*item) == ItemTree::Unnamed(
                parsed_expr(*expression),
            ),
            ItemLayer::Aliased(alias, expression) => item_tree(*item) == ItemTree::Aliased(
                parsed_name(*alias),
                parsed_expr(*expression),
            ),
            ItemLayer::Qualified => item_tree(*item) is Qualified,
            ItemLayer::Wildcard => item_tree(*item) is Wildcard,
        },
{
    match item {
        sqlparser::ast::SelectItem::UnnamedExpr(expr) => ItemLayer::Unnamed(expr),
        sqlparser::ast::SelectItem::ExprWithAlias { expr, alias } => ItemLayer::Aliased(
            alias,
            expr,
        ),
        sqlparser::ast::SelectItem::QualifiedWildcard(_, _) => ItemLayer::Qualified,
        sqlparser::ast::SelectItem::Wildcard(_) => ItemLayer::Wildcard,
    }
}

/// The `Display` form of `sqlparser::ast::SelectItem`: the item's canonical text.
#[verifier::external_body]
fn item_text(item: &sqlparser::ast::SelectItem) -> (r: String)
    ensures
        item_tree(*item) matches ItemTree::Qualified(text) ==> r@ == text,
{
    item.to_string()
}

/// The fields of `sqlparser::ast::TableWithJoins`: `relation` and `joins`.
#[verifier::external_body]
fn table_layer(table: &sqlparser::ast::TableWithJoins) -> (r: (
    &sqlparser::ast::TableFactor,
    &Vec<sqlparser::ast::Join>,
))
    ensures
        table_tree(*table) == (TableTree {
            relation: relation_tree(*r.0),
            joins: r.1@.map_values(|join: sqlparser::ast::Join| join_tree(join)),
        }),
{
    (&table.relation, &table.joins)
}

/// The variants of `sqlparser::ast::TableFactor`: the `args` of a table.
#[verifier::external_body]
fn relation_layer(relation: &sqlparser::ast::TableFactor) -> (r: Option<
    &Option<sqlparser::ast::TableFunctionArgs>,
>)
    ensures
        relation_tree(*relation) == match r {
            Some(args) => if args is None {
                SqlRelation::Plain
            } else {
                SqlRelation::Function
            },
            None => SqlRelation::Other,
        },
{
    match relation {
        sqlparser::ast::TableFactor::Table { args, .. } => Some(args),
        _ => None,
    }
}

/// The fields of `sqlparser::ast::Join`: `relation` and `join_operator`.
#[verifier::external_body]
fn join_layer(join: &sqlparser::ast::Join) -> (r: (
    &sqlparser::ast::TableFactor,
    &sqlparser::ast::JoinOperator,
))
    ensures
        join_tree(*join) == (relation_tree(*r.0), join_kind_tree(*r.1)),
{
    (&join.relation, &join.join_operator)
}

/// The variants of `sqlparser::ast::JoinOperator` that a query's shape depends on: `Inner`
/// and `Join`.
#[verifier::external_body]
fn join_kind(operator: &sqlparser::ast::JoinOperator) -> (r: SqlJoin)
    ensures
        r == join_kind_tree(*operator),
{
    match operator {
        sqlparser::ast::JoinOperator::Inner(_) => SqlJoin::Inner,
        sqlparser::ast::JoinOperator::Join(_) => SqlJoin::Bare,
        _ => SqlJoin::Other,
    }
}

/// The variants of `sqlparser::ast::OrderByKind`: the expressions, if the order is by some.
#[verifier::external_body]
fn ordering_layer(order: &sqlparser::ast::OrderBy) -> (r: Option<
    &Vec<sqlparser::ast::OrderByExpr>,
>)
    ensures
        ordering_tree(*order) == match r {
            Some(items) => OrderingTree::Expressions(
                items@.map_values(|item: sqlparser::ast::OrderByExpr| order_tree(item)),
            ),
            None => OrderingTree::Other,
        },
{
    match &order.kind {
        sqlparser::ast::OrderByKind::Expressions(items) => Some(items),
        sqlparser::ast::OrderByKind::All(_) => None,
    }
}

/// The fields of `sqlparser::ast::OrderByExpr`: `expr`, `options.asc` and `with_fill`.
#[verifier::external_body]
fn order_layer(order: &sqlparser::ast::OrderByExpr) -> (r: (
    &sqlparser::ast::Expr,
    Option<bool>,
    &Option<sqlparser::ast::WithFill>,
))
    ensures
        order_tree(*order) == (OrderTree {
            expression: parsed_expr(*r.0),
            ascending: r.1,
            with_fill: r.2 is Some,
        }),
{
    (&order.expr, order.options.asc, &order.with_fill)
}

/// The variants of an expression that are told apart.
enum ExprLayer<'a> {
    Identifier(&'a sqlparser::ast::Ident),
    Compound(&'a Vec<sqlparser::ast::Ident>),
    Literal(&'a sqlparser::ast::Value),
    Nested(&'a sqlparser::ast::Expr),
    Binary(
        &'a sqlparser::ast::Expr,
        &'a sqlparser::ast::BinaryOperator,
        &'a sqlparser::ast::Expr,
    ),
    Other,
}

/// Whether a layer is the top of an expression.
spec fn tops(layer: ExprLayer<'_>, form: FormTree) -> bool {
    match layer {
        ExprLayer::Identifier(name) => form == FormTree::Identifier(parsed_name(*name)),
        ExprLayer::Compound(names) => form == FormTree::Compound(
            names@.map_values(|name: sqlparser::ast::Ident| parsed_name(name)),
        ),
        ExprLayer::Literal(value) => form == match parsed_bind(*value) {
            Some(bind) => FormTree::Placeholder(bind),
            None => FormTree::Other,
        },
        ExprLayer::Nested(inner) => form == FormTree::Nested(Box::new(parsed_expr(*inner))),
        ExprLayer::Binary(left, operator, right) => form == FormTree::Binary(
            Box::new(parsed_expr(*left)),
            parsed_operator(*operator),
            Box::new(parsed_expr(*right)),
        ),
        ExprLayer::Other => form is Other,
    }
}

/// The variants of `sqlparser::ast::Expr` that a query's shape depends on, each with its
/// fields.
#[verifier::external_body]
fn expr_layer(expression: &sqlparser::ast::Expr) -> (r: ExprLayer<'_>)
    ensures
        tops(r, parsed_expr(*expression).form),
{
    match expression {
        sqlparser::ast::Expr::Identifier(name) => ExprLayer::Identifier(name),
        sqlparser::ast::Expr::CompoundIdentifier(names) => ExprLayer::Compound(names),
        sqlparser::ast::Expr::Value(value) => ExprLayer::Literal(&value.value),
        sqlparser::ast::Expr::Nested(inner) => ExprLayer::Nested(inner),
        sqlparser::ast::Expr::BinaryOp { left, op, right } => ExprLayer::Binary(left, op, right),
        _ => ExprLayer::Other,
    }
}

/// The `Display` form of `sqlparser::ast::Expr`: the expression's canonical text.
#[verifier::external_body]
fn expr_text(expression: &sqlparser::ast::Expr) -> (r: String)
    ensures
        r@ == parsed_expr(*expression).text,
{
    expression.to_string()
}

/// The fields of `sqlparser::ast::Ident`: `value` and `quote_style`.
#[verifier::external_body]
fn name_layer(name: &sqlparser::ast::Ident) -> (r: (&String, Option<char>))
    ensures
        parsed_name(*name) == (NameTree { value: r.0@, quote: r.1 }),
{
    (&name.value, name.quote_style)
}

/// The variants of `sqlparser::ast::Value`: the text of a placeholder.
#[verifier::external_body]
fn bind_of(value: &sqlparser::ast::Value) -> (r: Option<&String>)
    ensures
        parsed_bind(*value) == match r {
            Some(bind) => Some(bind@),
            None => None,
        },
{
    match value {
        sqlparser::ast::Value::Placeholder(bind) => Some(bind),
        _ => None,
    }
}

/// The variants of `sqlparser::ast::BinaryOperator` that a query's shape depends on.
#[verifier::external_body]
fn operator_of(operator: &sqlparser::ast::BinaryOperator) -> (r: SqlOperator)
    ensures
        r == parsed_operator(*operator),
{
    match operator {
        sqlparser::ast::BinaryOperator::And => SqlOperator::And,
        sqlparser::ast::BinaryOperator::Or => SqlOperator::Or,
        sqlparser::ast::BinaryOperator::Gt => SqlOperator::Greater,
        sqlparser::ast::BinaryOperator::Eq => SqlOperator::Equal,
        _ => SqlOperator::Other,
    }
}

fn read_name(name: &sqlparser::ast::Ident) -> (r: SqlName)
    ensures
        r@ == parsed_name(*name),
{
    let (value, quote) = name_layer(name);
    SqlName { value: value.clone(), quote }
}

fn read_names(names: &Vec<sqlparser::ast::Ident>) -> (r: Vec<SqlName>)
    ensures
        r@.map_values(|name: SqlName| name@) == names@.map_values(
            |name: sqlparser::ast::Ident| parsed_name(name),
        ),
{
    let mut r: Vec<SqlName> = Vec::new();
    let mut i: usize = 0;
    while i < names.len()
        invariant
            i <= names@.len(),
            r@.len() == i,
            forall|j: int| 0 <= j < i ==> (#[trigger] r@[j])@ == parsed_name(names@[j]),
        decreases names.len() - i,
    {
        r.push(read_name(&names[i]));
        i += 1;
    }
    assert(r@.map_values(|name: SqlName| name@) =~= names@.map_values(
        |name: sqlparser::ast::Ident| parsed_name(name),
    ));
    r
}

fn read_expr(expression: &sqlparser::ast::Expr) -> (r: SqlExpression)
    ensures
        r@ == parsed_expr(*expression),
    decreases parsed_expr(*expression),
{
    let ghost whole = parsed_expr(*expression);
    let text = expr_text(expression);
    let form: SqlForm = match expr_layer(expression) {
        ExprLayer::Identifier(name) => SqlForm::Identifier(read_name(name)),
        ExprLayer::Compound(names) => SqlForm::Compound(read_names(names)),
        ExprLayer::Literal(value) => match bind_of(value) {
            Some(bind) => SqlForm::Placeholder(bind.clone()),
            None => SqlForm::Other,
        },
        ExprLayer::Nested(inner) => {
            assert(decreases_to!(whole => *whole.form->Nested_0));
            SqlForm::Nested(Box::new(read_expr(inner)))
        },
        ExprLayer::Binary(left, operator, right) => {
            assert(decreases_to!(whole => *whole.form->Binary_0));
            assert(decreases_to!(whole => *whole.form->Binary_2));
            SqlForm::Binary(
                Box::new(read_expr(left)),
                operator_of(operator),
                Box::new(read_expr(right)),
            )
        },
        ExprLayer::Other => SqlForm::Other,
    };
    SqlExpression { text, form }
}

fn read_item(item: &sqlparser::ast::SelectItem) -> (r: SqlItem)
    ensures
        r@ == item_tree(*item),
{
    match item_layer(item) {
        ItemLayer::Unnamed(expression) => SqlItem::Unnamed(read_expr(expression)),
        ItemLayer::Aliased(alias, expression) => SqlItem::Aliased(
            read_name(alias),
            read_expr(expression),
        ),
        ItemLayer::Qualified => SqlItem::Qualified(item_text(item)),
        ItemLayer::Wildcard => SqlItem::Wildcard,
    }
}

fn read_items(items: &Vec<sqlparser::ast::SelectItem>) -> (r: Vec<SqlItem>)
    ensures
        r@.map_values(|item: SqlItem| item@) == items@.map_values(
            |item: sqlparser::ast::SelectItem| item_tree(item),
        ),
{
    let mut r: Vec<SqlItem> = Vec::new();
    let mut i: usize = 0;
    while i < items.len()
        invariant
            i <= items@.len(),
            r@.len() == i,
            forall|j: int| 0 <= j < i ==> (#[trigger] r@[j])@ == item_tree(items@[j]),
        decreases items.len() - i,
    {
        r.push(read_item(&items[i]));
        i += 1;
    }
    assert(r@.map_values(|item: SqlItem| item@) =~= items@.map_values(
        |item: sqlparser::ast::SelectItem| item_tree(item),
    ));
    r
}

fn read_relation(relation: &sqlparser::ast::TableFactor) -> (r: SqlRelation)
    ensures
        r == relation_tree(*relation),
{
    match relation_layer(relation) {
        Some(args) => {
            if args.is_none() {
                SqlRelation::Plain
            } else {
                SqlRelation::Function
            }
        },
        None => SqlRelation::Other,
    }
}

fn read_table(table: &sqlparser::ast::TableWithJoins) -> (r: SqlTable)
    ensures
        r@ == table_tree(*table),
{
    let (relation, parsed) = table_layer(table);
    let mut joins: Vec<(SqlRelation, SqlJoin)> = Vec::new();
    let mut i: usize = 0;
    while i < parsed.len()
        invariant
            i <= parsed@.len(),
            joins@.len() == i,
            forall|j: int| 0 <= j < i ==> #[trigger] joins@[j] == join_tree(parsed@[j]),
        decreases parsed.len() - i,
    {
        let (joined, operator) = join_layer(&parsed[i]);
        joins.push((read_relation(joined), join_kind(operator)));
        i += 1;
    }
    assert(joins@ =~= parsed@.map_values(|join: sqlparser::ast::Join| join_tree(join)));
    SqlTable { relation: read_relation(relation), joins }
}

fn read_tables(tables: &Vec<sqlparser::ast::TableWithJoins>) -> (r: Vec<SqlTable>)
    ensures
        r@.map_values(|table: SqlTable| table@) == tables@.map_values(
            |table: sqlparser::ast::TableWithJoins| table_tree(table),
        ),
{
    let mut r: Vec<SqlTable> = Vec::new();
    let mut i: usize = 0;
    while i < tables.len()
        invariant
            i <= tables@.len(),
            r@.len() == i,
            forall|j: int| 0 <= j < i ==> (#[trigger] r@[j])@ == table_tree(tables@[j]),
        decreases tables.len() - i,
    {
        r.push(read_table(&tables[i]));
        i += 1;
    }
    assert(r@.map_values(|table: SqlTable| table@) =~= tables@.map_values(
        |table: sqlparser::ast::TableWithJoins| table_tree(table),
    ));
    r
}

fn read_select(select: &sqlparser::ast::Select) -> (r: SqlSelect)
    ensures
        r@ == select_tree(*select),
{
    let layer = select_layer(select);
    SqlSelect {
        distinct: layer.distinct.is_some(),
        into: layer.into.is_some(),
        projection: read_items(layer.projection),
        from: read_tables(layer.from),
        selection: match layer.selection {
            Some(condition) => Some(read_expr(condition)),
            None => None,
        },
    }
}

fn read_ordering(order: &sqlparser::ast::OrderBy) -> (r: SqlOrdering)
    ensures
        r@ == ordering_tree(*order),
{
    match ordering_layer(order) {
        None => SqlOrdering::Other,
        Some(parsed) => {
            let mut items: Vec<SqlOrder> = Vec::new();
            let mut i: usize = 0;
            while i < parsed.len()
                invariant
                    i <= parsed@.len(),
                    items@.len() == i,
                    forall|j: int| 0 <= j < i ==> (#[trigger] items@[j])@ == order_tree(parsed@[j]),
                decreases parsed.len() - i,
            {
                let (expression, ascending, fill) = order_layer(&parsed[i]);
                items.push(
                    SqlOrder {
                        expression: read_expr(expression),
                        ascending,
                        with_fill: fill.is_some(),
                    },
                );
                i += 1;
            }
            assert(items@.map_values(|item: SqlOrder| item@) =~= parsed@.map_values(
                |item: sqlparser::ast::OrderByExpr| order_tree(item),
            ));
            SqlOrdering::Expressions(items)
        },
    }
}

fn read_query(query: &sqlparser::ast::Query) -> (r: SqlQuery)
    ensures
        r@ == query_tree(*query),
{
    let visitor = walk(query);
    let layer = query_layer(query);
    SqlQuery {
        text: query_text(query),
        queries: visitor.queries,
        binds: visitor.binds,
        with: layer.with.is_some(),
        limit: layer.limit.is_some(),
        fetch: layer.fetch.is_some(),
        locks: layer.locks.len(),
        select: match body_layer(layer.body) {
            Some(select) => Some(read_select(select)),
            None => None,
        },
        order: match layer.order {
            Some(order) => read_ordering(order),
            None => SqlOrdering::Absent,
        },
    }
}

/// Reads the statements of a text, if it can be read.
pub fn read_statements(sql: &str) -> (r: Option<Vec<SqlStatement>>)
    ensures
        match r {
            Some(statements) => parsed_statements(sql@) == Some(
                statements@.map_values(|statement: SqlStatement| statement@),
            ),
            None => parsed_statements(sql@) is None,
        },
{
    match parse_sql(sql) {
        None => None,
        Some(parsed) => {
            let mut statements: Vec<SqlStatement> = Vec::new();
            let mut i: usize = 0;
            while i < parsed.len()
                invariant
                    i <= parsed@.len(),
                    statements@.len() == i,
                    forall|j: int|
                        0 <= j < i ==> (#[trigger] statements@[j])@ == statement_tree(parsed@[j]),
                decreases parsed.len() - i,
            {
                let statement = match statement_layer(&parsed[i]) {
                    Some(query) => SqlStatement::Query(read_query(query)),
                    None => SqlStatement::Other,
                };
                statements.push(statement);
                i += 1;
            }
            assert(statements@.map_values(|statement: SqlStatement| statement@)
                =~= parsed@.map_values(
                |statement: sqlparser::ast::Statement| statement_tree(statement),
            ));
            Some(statements)
        },
    }
}

/// Why a statement cannot be polled by its cursor, if it cannot.
pub open spec fn sql_failure(sql: Seq<char>, timestamp: Seq<char>, tie_breaker: Seq<char>) -> Option<
    Seq<char>,
> {
    if text::bytes_in(sql) > MAX_STATEMENT_BYTES {
        Some("query.statement exceeds 64 KiB"@)
    } else {
        match parsed_statements(sql) {
            None => Some("query.statement is not valid supported PostgreSQL SQL"@),
            Some(statements) => shape::statements_failure(statements, timestamp, tie_breaker),
        }
    }
}

/// The canonical text of a statement that is one query.
pub open spec fn canonical(sql: Seq<char>) -> Seq<char> {
    parsed_statements(sql)->0[0]->Query_0.text
}

/// Checks that a statement can be polled by its cursor, and gives its canonical text.
pub fn validate_sql(sql: &str, watermark: &WatermarkConfig) -> (r: Result<String, ConfigError>)
    ensures
        ({
            let failure = sql_failure(
                sql@,
                polling::timestamp_part(*watermark).column@,
                polling::tie_breaker_part(*watermark).column@,
            );
            match r {
                Ok(text) => failure is None && text@ == canonical(sql@),
                Err(error) => failure == Some(error.message@),
            }
        }),
{
    if byte_len(sql) > MAX_STATEMENT_BYTES {
        return Err(ConfigError { message: "query.statement exceeds 64 KiB" });
    }
    match read_statements(sql) {
        None => Err(
            ConfigError { message: "query.statement is not valid supported PostgreSQL SQL" },
        ),
        Some(statements) => validate_statements(
            &statements,
            watermark.timestamp().column.as_str(),
            watermark.tie_breaker().column.as_str(),
        ),
    }
}

/// Every query that is met counts once, as far as it can be counted, and no bind is met by it.
pub proof fn law_every_query_counts(met: ShapeModel)
    ensures
        met.queries < usize::MAX ==> with_query(met).queries - met.queries == 1,
        met.queries == usize::MAX ==> with_query(met).queries == usize::MAX,
        with_query(met).binds == met.binds,
{
}

/// Exactly the expressions that are binds are remembered, each by its own name and after those
/// met before.
pub proof fn law_every_bind_is_remembered(met: ShapeModel, expression: ExprTree)
    ensures
        with_expression(met, expression).queries == met.queries,
        expression.form matches FormTree::Placeholder(bind) ==> with_expression(
            met,
            expression,
        ).binds.len() == met.binds.len() + 1 && with_expression(met, expression).binds.last() == bind
            && with_expression(met, expression).binds.drop_last() == met.binds,
        !(expression.form is Placeholder) ==> with_expression(met, expression).binds == met.binds,
{
}

/// A statement is accepted exactly when it has at most 64 KiB, can be read, and what is read can
/// be polled by the cursor.
pub proof fn law_accepted_statements_can_be_polled(
    sql: Seq<char>,
    timestamp: Seq<char>,
    tie_breaker: Seq<char>,
)
    ensures
        sql_failure(sql, timestamp, tie_breaker) is None <==> text::bytes_in(sql) <= 65_536
            && parsed_statements(sql) is Some && shape::statements_failure(
            parsed_statements(sql)->0,
            timestamp,
            tie_breaker,
        ) is None,
{
}

} // verus!
