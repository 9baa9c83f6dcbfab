//! The shape of incremental queries: one SELECT over tables, ordered by the cursor's columns
//! and bounded by the cursor's position.

use crate::text;
use crate::text::{lowered, same};
use vstd::prelude::*;

verus! {

/// An operator, as far as a query's shape depends on it.
#[derive(Clone, Copy, Debug, PartialEq, Eq, Structural)]
pub enum SqlOperator {
    /// `AND`.
    And,
    /// `OR`.
    Or,
    /// `>`.
    Greater,
    /// `=`.
    Equal,
    /// Any other.
    Other,
}

/// One part of a column's name.
pub struct SqlName {
    /// The name without quotes.
    pub value: String,
    /// The quote it is written in, if it is.
    pub quote: Option<char>,
}

/// An expression and its canonical text.
pub struct SqlExpression {
    /// The canonical text.
    pub text: String,
    /// What the expression is.
    pub form: SqlForm,
}

/// What an expression is, as far as a query's shape depends on it.
pub enum SqlForm {
    /// A column.
    Identifier(SqlName),
    /// A column, qualified.
    Compound(Vec<SqlName>),
    /// A bind.
    Placeholder(String),
    /// An expression in parentheses.
    Nested(Box<SqlExpression>),
    /// Two expressions under an operator.
    Binary(Box<SqlExpression>, SqlOperator, Box<SqlExpression>),
    /// Anything else.
    Other,
}

/// One selected item.
pub enum SqlItem {
    /// An expression.
    Unnamed(SqlExpression),
    /// An expression under an alias.
    Aliased(SqlName, SqlExpression),
    /// Every column of one relation; its canonical text.
    Qualified(String),
    /// Every column.
    Wildcard,
}

/// A relation to read from.
#[derive(Clone, Copy, Debug, PartialEq, Eq, Structural)]
pub enum SqlRelation {
    /// A table.
    Plain,
    /// A table function.
    Function,
    /// Anything else.
    Other,
}

/// How a relation is joined.
#[derive(Clone, Copy, Debug, PartialEq, Eq, Structural)]
pub enum SqlJoin {
    /// `INNER JOIN`.
    Inner,
    /// `JOIN` with nothing before it, which is an inner join too.
    Bare,
    /// Anything else.
    Other,
}

/// A relation and what is joined to it.
pub struct SqlTable {
    /// The relation.
    pub relation: SqlRelation,
    /// What is joined to it.
    pub joins: Vec<(SqlRelation, SqlJoin)>,
}

/// One expression to order by.
pub struct SqlOrder {
    /// The expression.
    pub expression: SqlExpression,
    /// `ASC` or `DESC`, where it is written.
    pub ascending: Option<bool>,
    /// Whether gaps are filled.
    pub with_fill: bool,
}

/// The order of a result.
pub enum SqlOrdering {
    /// None is asked for.
    Absent,
    /// By expressions.
    Expressions(Vec<SqlOrder>),
    /// Anything else.
    Other,
}

/// One SELECT.
pub struct SqlSelect {
    /// Whether it is `DISTINCT`.
    pub distinct: bool,
    /// Whether it writes into a table.
    pub into: bool,
    /// The selected items.
    pub projection: Vec<SqlItem>,
    /// The relations.
    pub from: Vec<SqlTable>,
    /// The condition.
    pub selection: Option<SqlExpression>,
}

/// A query.
pub struct SqlQuery {
    /// The canonical text.
    pub text: String,
    /// How many queries it holds, itself among them.
    pub queries: usize,
    /// The binds that it holds.
    pub binds: Vec<String>,
    /// Whether it has a `WITH` clause.
    pub with: bool,
    /// Whether it limits its rows.
    pub limit: bool,
    /// Whether it has a `FETCH` clause.
    pub fetch: bool,
    /// How many row locks it takes.
    pub locks: usize,
    /// Its body, where that is one SELECT.
    pub select: Option<SqlSelect>,
    /// Its order.
    pub order: SqlOrdering,
}

/// A statement.
pub enum SqlStatement {
    /// A query.
    Query(SqlQuery),
    /// Anything else.
    Other,
}

/// One part of a column's name, as a mathematical value.
pub struct NameTree {
    pub value: Seq<char>,
    pub quote: Option<char>,
}

/// An expression as a mathematical value.
pub struct ExprTree {
    pub text: Seq<char>,
    pub form: FormTree,
}

/// What an expression is, as a mathematical value.
pub enum FormTree {
    Identifier(NameTree),
    Compound(Seq<NameTree>),
    Placeholder(Seq<char>),
    Nested(Box<ExprTree>),
    Binary(Box<ExprTree>, SqlOperator, Box<ExprTree>),
    Other,
}

/// One selected item as a mathematical value.
pub enum ItemTree {
    Unnamed(ExprTree),
    Aliased(NameTree, ExprTree),
    Qualified(Seq<char>),
    Wildcard,
}

/// A relation and what is joined to it, as a mathematical value.
pub struct TableTree {
    pub relation: SqlRelation,
    pub joins: Seq<(SqlRelation, SqlJoin)>,
}

/// One expression to order by, as a mathematical value.
pub struct OrderTree {
    pub expression: ExprTree,
    pub ascending: Option<bool>,
    pub with_fill: bool,
}

/// The order of a result as a mathematical value.
pub enum OrderingTree {
    Absent,
    Expressions(Seq<OrderTree>),
    Other,
}

/// One SELECT as a mathematical value.
pub struct SelectTree {
    pub distinct: bool,
    pub into: bool,
    pub projection: Seq<ItemTree>,
    pub from: Seq<TableTree>,
    pub selection: Option<ExprTree>,
}

/// A query as a mathematical value.
pub struct QueryTree {
    pub text: Seq<char>,
    pub queries: nat,
    pub binds: Seq<Seq<char>>,
    pub with: bool,
    pub limit: bool,
    pub fetch: bool,
    pub locks: nat,
    pub select: Option<SelectTree>,
    pub order: OrderingTree,
}

/// A statement as a mathematical value.
pub enum StatementTree {
    Query(QueryTree),
    Other,
}

impl View for SqlName {
    type V = NameTree;

    open spec fn view(&self) -> NameTree {
        NameTree { value: self.value@, quote: self.quote }
    }
}

/// The mathematical value of an expression.
pub open spec fn expr_view(expression: SqlExpression) -> ExprTree
    decreases expression,
{
    ExprTree { text: expression.text@, form: form_view(expression.form) }
}

/// The mathematical value of what an expression is.
pub open spec fn form_view(form: SqlForm) -> FormTree
    decreases form,
{
    match form {
        SqlForm::Identifier(name) => FormTree::Identifier(name@),
        SqlForm::Compound(names) => FormTree::Compound(names@.map_values(|name: SqlName| name@)),
        SqlForm::Placeholder(bind) => FormTree::Placeholder(bind@),
        SqlForm::Nested(inner) => FormTree::Nested(Box::new(expr_view(*inner))),
        SqlForm::Binary(left, operator, right) => FormTree::Binary(
            Box::new(expr_view(*left)),
            operator,
            Box::new(expr_view(*right)),
        ),
        SqlForm::Other => FormTree::Other,
    }
}

impl View for SqlExpression {
    type V = ExprTree;

    open spec fn view(&self) -> ExprTree {
        expr_view(*self)
    }
}

impl View for SqlItem {
    type V = ItemTree;

    open spec fn view(&self) -> ItemTree {
        match *self {
            SqlItem::Unnamed(expression) => ItemTree::Unnamed(expression@),
            SqlItem::Aliased(alias, expression) => ItemTree::Aliased(alias@, expression@),
            SqlItem::Qualified(text) => ItemTree::Qualified(text@),
            SqlItem::Wildcard => ItemTree::Wildcard,
        }
    }
}

impl View for SqlTable {
    type V = TableTree;

    open spec fn view(&self) -> TableTree {
        TableTree { relation: self.relation, joins: self.joins@ }
    }
}

impl View for SqlOrder {
    type V = OrderTree;

    open spec fn view(&self) -> OrderTree {
        OrderTree {
            expression: self.expression@,
            ascending: self.ascending,
            with_fill: self.with_fill,
        }
    }
}

impl View for SqlOrdering {
    type V = OrderingTree;

    open spec fn view(&self) -> OrderingTree {
        match *self {
            SqlOrdering::Absent => OrderingTree::Absent,
            SqlOrdering::Expressions(items) => OrderingTree::Expressions(
                items@.map_values(|item: SqlOrder| item@),
            ),
            SqlOrdering::Other => OrderingTree::Other,
        }
    }
}

impl View for SqlSelect {
    type V = SelectTree;

    open spec fn view(&self) -> SelectTree {
        SelectTree {
            distinct: self.distinct,
            into: self.into,
            projection: self.projection@.map_values(|item: SqlItem| item@),
            from: self.from@.map_values(|table: SqlTable| table@),
            selection: match self.selection {
                Some(expression) => Some(expression@),
                None => None,
            },
        }
    }
}

impl View for SqlQuery {
    type V = QueryTree;

    open spec fn view(&self) -> QueryTree {
        QueryTree {
            text: self.text@,
            queries: self.queries as nat,
            binds: self.binds@.map_values(|bind: String| bind@),
            with: self.with,
            limit: self.limit,
            fetch: self.fetch,
            locks: self.locks as nat,
            select: match self.select {
                Some(select) => Some(select@),
                None => None,
            },
            order: self.order@,
        }
    }
}

impl View for SqlStatement {
    type V = StatementTree;

    open spec fn view(&self) -> StatementTree {
        match *self {
            SqlStatement::Query(query) => StatementTree::Query(query@),
            SqlStatement::Other => StatementTree::Other,
        }
    }
}

/// The expression inside any parentheses.
pub open spec fn bare(expression: ExprTree) -> ExprTree
    decreases expression,
{
    match expression.form {
        FormTree::Nested(inner) => bare(*inner),
        _ => expression,
    }
}

/// The two sides of an operator, without parentheses.
pub open spec fn operands(expression: ExprTree, operator: SqlOperator) -> Option<
    (ExprTree, ExprTree),
> {
    match bare(expression).form {
        FormTree::Binary(left, found, right) => if found == operator {
            Some((bare(*left), bare(*right)))
        } else {
            None
        },
        _ => None,
    }
}

/// Whether an expression compares a column, given by its text, with a bind.
pub open spec fn compares(
    expression: ExprTree,
    column: Seq<char>,
    operator: SqlOperator,
    bind: Seq<char>,
) -> bool {
    operands(expression, operator) matches Some((left, right)) && left.text == column && right.form
        == FormTree::Placeholder(bind)
}

/// Whether an expression is `timestamp > $1 OR (timestamp = $1 AND tie_breaker > $2)`.
pub open spec fn is_after_cursor(
    expression: ExprTree,
    timestamp: Seq<char>,
    tie_breaker: Seq<char>,
) -> bool {
    operands(expression, SqlOperator::Or) matches Some((later, tied)) && compares(
        later,
        timestamp,
        SqlOperator::Greater,
        "$1"@,
    ) && (operands(tied, SqlOperator::And) matches Some((equal, greater)) && compares(
        equal,
        timestamp,
        SqlOperator::Equal,
        "$1"@,
    ) && compares(greater, tie_breaker, SqlOperator::Greater, "$2"@))
}

/// How deep an expression is nested.
pub open spec fn depth(expression: ExprTree) -> nat
    decreases expression,
{
    match expression.form {
        FormTree::Nested(inner) => 1 + depth(*inner),
        FormTree::Binary(left, operator, right) => 1 + if depth(*left) < depth(*right) {
            depth(*right)
        } else {
            depth(*left)
        },
        _ => 0,
    }
}

proof fn lemma_bare_depth(expression: ExprTree)
    ensures
        depth(bare(expression)) <= depth(expression),
        !(bare(expression).form is Nested),
    decreases expression,
{
    match expression.form {
        FormTree::Nested(inner) => lemma_bare_depth(*inner),
        _ => {},
    }
}

proof fn lemma_operands_depth(expression: ExprTree, operator: SqlOperator)
    ensures
        operands(expression, operator) matches Some((left, right)) ==> depth(left) < depth(
            expression,
        ) && depth(right) < depth(expression),
{
    lemma_bare_depth(expression);
    match bare(expression).form {
        FormTree::Binary(left, found, right) => {
            lemma_bare_depth(*left);
            lemma_bare_depth(*right);
        },
        _ => {},
    }
}

/// Whether a condition requires a row to be after the cursor: the requirement is the
/// condition itself, or is joined to others by `AND`.
pub open spec fn requires_after_cursor(
    expression: ExprTree,
    timestamp: Seq<char>,
    tie_breaker: Seq<char>,
) -> bool
    decreases depth(expression),
    via requires_after_cursor_decreases
{
    match operands(expression, SqlOperator::And) {
        Some((left, right)) => requires_after_cursor(left, timestamp, tie_breaker)
            || requires_after_cursor(right, timestamp, tie_breaker),
        None => is_after_cursor(expression, timestamp, tie_breaker),
    }
}

#[via_fn]
proof fn requires_after_cursor_decreases(
    expression: ExprTree,
    timestamp: Seq<char>,
    tie_breaker: Seq<char>,
) {
    lemma_operands_depth(expression, SqlOperator::And);
}

/// The column that an expression names: a quoted name as it is written, another in lower
/// case.
pub open spec fn column(expression: ExprTree) -> Option<Seq<char>> {
    match expression.form {
        FormTree::Identifier(name) => Some(folded(name)),
        FormTree::Compound(names) => if names.len() == 0 {
            None
        } else {
            Some(folded(names.last()))
        },
        _ => None,
    }
}

/// A name as the database keeps it.
pub open spec fn folded(name: NameTree) -> Seq<char> {
    if name.quote is Some {
        name.value
    } else {
        text::lower(name.value)
    }
}

/// What stands before the last dot, if there is a dot.
pub open spec fn before_last_dot(text: Seq<char>) -> Option<Seq<char>>
    decreases text.len(),
{
    if text.len() == 0 {
        None
    } else if text.last() == '.' {
        Some(text.drop_last())
    } else {
        before_last_dot(text.drop_last())
    }
}

/// Takes an expression out of its parentheses.
pub fn unnest(expression: &SqlExpression) -> (r: &SqlExpression)
    ensures
        r@ == bare(expression@),
    decreases expression,
{
    match &expression.form {
        SqlForm::Nested(inner) => unnest(inner),
        _ => expression,
    }
}

/// The two sides of an operator, without parentheses.
pub fn binary(expression: &SqlExpression, operator: SqlOperator) -> (r: Option<
    (&SqlExpression, &SqlExpression),
>)
    ensures
        match r {
            Some((left, right)) => operands(expression@, operator) == Some((left@, right@)),
            None => operands(expression@, operator) is None,
        },
        r matches Some((left, right)) ==> depth(left@) < depth(expression@) && depth(right@)
            < depth(expression@),
{
    proof {
        lemma_operands_depth(expression@, operator);
    }
    match &unnest(expression).form {
        SqlForm::Binary(left, found, right) => {
            if *found == operator {
                Some((unnest(left), unnest(right)))
            } else {
                None
            }
        },
        _ => None,
    }
}

/// Whether an expression compares a column, given by its text, with a bind.
pub fn comparison(
    expression: &SqlExpression,
    column: &str,
    operator: SqlOperator,
    bind: &str,
) -> (found: bool)
    ensures
        found == compares(expression@, column@, operator, bind@),
{
    match binary(expression, operator) {
        None => false,
        Some((left, right)) => {
            if !same(left.text.as_str(), column) {
                return false;
            }
            match &right.form {
                SqlForm::Placeholder(found) => same(found.as_str(), bind),
                _ => false,
            }
        },
    }
}

/// Whether a condition requires a row to be after the cursor.
pub fn keyset(expression: &SqlExpression, timestamp: &str, tie_breaker: &str) -> (found: bool)
    ensures
        found == requires_after_cursor(expression@, timestamp@, tie_breaker@),
    decreases depth(expression@),
{
    if let Some((left, right)) = binary(expression, SqlOperator::And) {
        return keyset(left, timestamp, tie_breaker) || keyset(right, timestamp, tie_breaker);
    }
    match binary(expression, SqlOperator::Or) {
        None => false,
        Some((later, tied)) => {
            if !comparison(later, timestamp, SqlOperator::Greater, "$1") {
                return false;
            }
            match binary(tied, SqlOperator::And) {
                None => false,
                Some((equal, greater)) => comparison(equal, timestamp, SqlOperator::Equal, "$1")
                    && comparison(greater, tie_breaker, SqlOperator::Greater, "$2"),
            }
        },
    }
}

fn fold(name: &SqlName) -> (r: String)
    ensures
        r@ == folded(name@),
{
    if name.quote.is_some() {
        name.value.clone()
    } else {
        lowered(name.value.as_str())
    }
}

/// The column that an expression names, if it names one.
pub fn column_name(expression: &SqlExpression) -> (r: Option<String>)
    ensures
        match r {
            Some(name) => column(expression@) == Some(name@),
            None => column(expression@) is None,
        },
{
    match &expression.form {
        SqlForm::Identifier(name) => Some(fold(name)),
        SqlForm::Compound(names) => {
            if names.len() == 0 {
                None
            } else {
                Some(fold(&names[names.len() - 1]))
            }
        },
        _ => None,
    }
}

/// What a truth value of conditions has to respect to be one: `AND` holds where both sides
/// hold, `OR` where one does, and a comparison of a column with a bind holds by the column,
/// the operator and the bind. Parentheses change nothing.
pub open spec fn respects(
    holds: spec_fn(ExprTree) -> bool,
    related: spec_fn(Seq<char>, SqlOperator, Seq<char>) -> bool,
) -> bool {
    &&& forall|e: ExprTree|
        (#[trigger] operands(e, SqlOperator::And) matches Some((left, right)) ==> holds(e) == (
        holds(left) && holds(right)))
    &&& forall|e: ExprTree|
        (#[trigger] operands(e, SqlOperator::Or) matches Some((left, right)) ==> holds(e) == (
        holds(left) || holds(right)))
    &&& forall|e: ExprTree, c: Seq<char>, o: SqlOperator, b: Seq<char>| #[trigger]
        compares(e, c, o, b) ==> holds(e) == related(c, o, b)
}

/// A condition that requires rows to be after the cursor lets no other row through: where
/// it holds, the timestamp is greater than the cursor's, or equal with a greater
/// tie-breaker.
pub proof fn law_accepted_condition_bounds_the_rows(
    condition: ExprTree,
    timestamp: Seq<char>,
    tie_breaker: Seq<char>,
    holds: spec_fn(ExprTree) -> bool,
    related: spec_fn(Seq<char>, SqlOperator, Seq<char>) -> bool,
)
    requires
        respects(holds, related),
        requires_after_cursor(condition, timestamp, tie_breaker),
        holds(condition),
    ensures
        related(timestamp, SqlOperator::Greater, "$1"@) || (related(
            timestamp,
            SqlOperator::Equal,
            "$1"@,
        ) && related(tie_breaker, SqlOperator::Greater, "$2"@)),
    decreases depth(condition),
{
    lemma_operands_depth(condition, SqlOperator::And);
    match operands(condition, SqlOperator::And) {
        Some((left, right)) => {
            if requires_after_cursor(left, timestamp, tie_breaker) {
                law_accepted_condition_bounds_the_rows(
                    left,
                    timestamp,
                    tie_breaker,
                    holds,
                    related,
                );
            } else {
                law_accepted_condition_bounds_the_rows(
                    right,
                    timestamp,
                    tie_breaker,
                    holds,
                    related,
                );
            }
        },
        None => {
            let (later, tied) = operands(condition, SqlOperator::Or)->0;
            let (equal, greater) = operands(tied, SqlOperator::And)->0;
            assert(compares(later, timestamp, SqlOperator::Greater, "$1"@));
            assert(compares(equal, timestamp, SqlOperator::Equal, "$1"@));
            assert(compares(greater, tie_breaker, SqlOperator::Greater, "$2"@));
        },
    }
}

/// Whether an expression is a column of this name, as the database reads it: its last part
/// is written with quotes and is the name, or without and is the name but for capitals.
pub open spec fn refers_to(expression: ExprTree, name: Seq<char>) -> bool {
    let last = match expression.form {
        FormTree::Identifier(part) => Some(part),
        FormTree::Compound(parts) => if parts.len() > 0 {
            Some(parts[parts.len() - 1])
        } else {
            None
        },
        _ => None,
    };
    &&& last is Some
    &&& last->0.quote is Some ==> last->0.value == name
    &&& last->0.quote is None ==> last->0.value.len() == name.len() && forall|i: int|
        0 <= i < name.len() ==> !('A' <= #[trigger] name[i] <= 'Z') && text::is_case_of(
            last->0.value[i],
            name[i],
        )
}

/// An expression names a column exactly when its last part, folded as the database folds
/// names, is that name.
pub proof fn law_columns_are_named_by_their_last_part(expression: ExprTree, name: Seq<char>)
    ensures
        column(expression) == Some(name) <==> refers_to(expression, name),
{
    let part = match expression.form {
        FormTree::Identifier(part) => part,
        FormTree::Compound(parts) => parts.last(),
        _ => NameTree { value: Seq::empty(), quote: None },
    };
    text::law_lower_case_changes_capitals_alone(part.value);
    if part.quote is None && text::lower(part.value) == name {
        assert forall|i: int| 0 <= i < name.len() implies !('A' <= #[trigger] name[i] <= 'Z')
            && text::is_case_of(part.value[i], name[i]) by {
            assert('A' <= part.value[i] <= 'Z' || part.value[i] == name[i]);
        }
    }
    if refers_to(expression, name) && part.quote is None {
        assert forall|i: int| 0 <= i < name.len() implies text::lower(part.value)[i] == name[i] by {
            assert(text::is_case_of(part.value[i], name[i]));
            assert('A' <= part.value[i] <= 'Z' || part.value[i] == name[i]);
        }
        assert(text::lower(part.value) =~= name);
    }
}

/// What stands before the last dot of a text is all of it up to a dot after which there is
/// none; a text without a dot has nothing before one.
pub proof fn law_last_dot_is_the_last(text: Seq<char>)
    ensures
        before_last_dot(text) is None <==> !text.contains('.'),
        before_last_dot(text) matches Some(before) ==> before.len() < text.len() && before
            == text.take(before.len() as int) && text[before.len() as int] == '.' && (forall|i: int|
            before.len() < i < text.len() ==> #[trigger] text[i] != '.'),
    decreases text.len(),
{
    if text.len() > 0 {
        let rest = text.drop_last();
        if text.last() == '.' {
            assert(text[text.len() - 1] == '.');
            assert(rest =~= text.take(rest.len() as int));
        } else {
            law_last_dot_is_the_last(rest);
            if rest.contains('.') {
                let at = choose|at: int| 0 <= at < rest.len() && rest[at] == '.';
                assert(text[at] == '.');
                let before = before_last_dot(rest)->0;
                assert(rest.take(before.len() as int) =~= text.take(before.len() as int));
                assert(rest[before.len() as int] == text[before.len() as int]);
                assert forall|i: int| before.len() < i < text.len() implies #[trigger] text[i]
                    != '.' by {
                    if i < rest.len() {
                        assert(rest[i] == text[i]);
                    }
                }
            } else if text.contains('.') {
                let at = choose|at: int| 0 <= at < text.len() && text[at] == '.';
                assert(rest[at] == '.');
            }
        }
    }
}

/// What a reading of conditions has to be: parentheses change nothing, `AND` holds where both
/// sides hold, `OR` where one does, and a comparison with a bind holds by what is written on
/// its left, the operator and the bind.
pub open spec fn is_reading(
    holds: spec_fn(ExprTree) -> bool,
    shown: spec_fn(ExprTree) -> Seq<char>,
    bound: spec_fn(ExprTree) -> Option<Seq<char>>,
    related: spec_fn(Seq<char>, SqlOperator, Seq<char>) -> bool,
) -> bool {
    forall|e: ExprTree|
        #![trigger holds(e)]
        #![trigger shown(e)]
        #![trigger bound(e)]
        match e.form {
            FormTree::Nested(inner) => holds(e) == holds(*inner) && shown(e) == shown(*inner)
                && bound(e) == bound(*inner),
            FormTree::Placeholder(bind) => shown(e) == e.text && bound(e) == Some(bind),
            FormTree::Binary(left, operator, right) => shown(e) == e.text && bound(e) is None
                && match operator {
                SqlOperator::And => holds(e) == (holds(*left) && holds(*right)),
                SqlOperator::Or => holds(e) == (holds(*left) || holds(*right)),
                SqlOperator::Other => true,
                _ => bound(*right) matches Some(bind) ==> holds(e) == related(
                    shown(*left),
                    operator,
                    bind,
                ),
            },
            _ => shown(e) == e.text && bound(e) is None,
        }
}

proof fn lemma_reading_ignores_parentheses(
    e: ExprTree,
    holds: spec_fn(ExprTree) -> bool,
    shown: spec_fn(ExprTree) -> Seq<char>,
    bound: spec_fn(ExprTree) -> Option<Seq<char>>,
    related: spec_fn(Seq<char>, SqlOperator, Seq<char>) -> bool,
)
    requires
        is_reading(holds, shown, bound, related),
    ensures
        holds(bare(e)) == holds(e),
        shown(bare(e)) == shown(e),
        bound(bare(e)) == bound(e),
        !(bare(e).form is Nested),
    decreases e,
{
    match e.form {
        FormTree::Nested(inner) => {
            assert(holds(e) == holds(*inner));
            lemma_reading_ignores_parentheses(*inner, holds, shown, bound, related);
        },
        _ => {},
    }
}

/// However a condition is read, one that is accepted holds of no row that is not after the
/// cursor: its timestamp is greater than the first bind, or equal to it with a tie-breaker
/// greater than the second.
pub proof fn law_accepted_condition_admits_later_rows_alone(
    condition: ExprTree,
    timestamp: Seq<char>,
    tie_breaker: Seq<char>,
    holds: spec_fn(ExprTree) -> bool,
    shown: spec_fn(ExprTree) -> Seq<char>,
    bound: spec_fn(ExprTree) -> Option<Seq<char>>,
    related: spec_fn(Seq<char>, SqlOperator, Seq<char>) -> bool,
)
    requires
        is_reading(holds, shown, bound, related),
        requires_after_cursor(condition, timestamp, tie_breaker),
        holds(condition),
    ensures
        related(timestamp, SqlOperator::Greater, seq!['$', '1']) || (related(
            timestamp,
            SqlOperator::Equal,
            seq!['$', '1'],
        ) && related(tie_breaker, SqlOperator::Greater, seq!['$', '2'])),
    decreases depth(condition),
{
    reveal_strlit("$1");
    reveal_strlit("$2");
    assert("$1"@ =~= seq!['$', '1']);
    assert("$2"@ =~= seq!['$', '2']);
    lemma_operands_depth(condition, SqlOperator::And);
    lemma_reading_ignores_parentheses(condition, holds, shown, bound, related);
    match operands(condition, SqlOperator::And) {
        Some((left, right)) => {
            lemma_operands_hold(condition, SqlOperator::And, holds, shown, bound, related);
            if requires_after_cursor(left, timestamp, tie_breaker) {
                law_accepted_condition_admits_later_rows_alone(
                    left,
                    timestamp,
                    tie_breaker,
                    holds,
                    shown,
                    bound,
                    related,
                );
            } else {
                law_accepted_condition_admits_later_rows_alone(
                    right,
                    timestamp,
                    tie_breaker,
                    holds,
                    shown,
                    bound,
                    related,
                );
            }
        },
        None => {
            let (later, tied) = operands(condition, SqlOperator::Or)->0;
            let (equal, greater) = operands(tied, SqlOperator::And)->0;
            lemma_operands_hold(condition, SqlOperator::Or, holds, shown, bound, related);
            lemma_operands_hold(tied, SqlOperator::And, holds, shown, bound, related);
            lemma_comparison_holds(
                later,
                timestamp,
                SqlOperator::Greater,
                "$1"@,
                holds,
                shown,
                bound,
                related,
            );
            lemma_comparison_holds(
                equal,
                timestamp,
                SqlOperator::Equal,
                "$1"@,
                holds,
                shown,
                bound,
                related,
            );
            lemma_comparison_holds(
                greater,
                tie_breaker,
                SqlOperator::Greater,
                "$2"@,
                holds,
                shown,
                bound,
                related,
            );
        },
    }
}

proof fn lemma_operands_hold(
    e: ExprTree,
    operator: SqlOperator,
    holds: spec_fn(ExprTree) -> bool,
    shown: spec_fn(ExprTree) -> Seq<char>,
    bound: spec_fn(ExprTree) -> Option<Seq<char>>,
    related: spec_fn(Seq<char>, SqlOperator, Seq<char>) -> bool,
)
    requires
        is_reading(holds, shown, bound, related),
        operands(e, operator) is Some,
        operator is And || operator is Or,
    ensures
        operands(e, operator) matches Some((left, right)) ==> if operator is And {
            holds(e) == (holds(left) && holds(right))
        } else {
            holds(e) == (holds(left) || holds(right))
        },
{
    lemma_reading_ignores_parentheses(e, holds, shown, bound, related);
    match bare(e).form {
        FormTree::Binary(left, found, right) => {
            assert(holds(bare(e)) == holds(e));
            lemma_reading_ignores_parentheses(*left, holds, shown, bound, related);
            lemma_reading_ignores_parentheses(*right, holds, shown, bound, related);
        },
        _ => {},
    }
}

proof fn lemma_comparison_holds(
    e: ExprTree,
    column: Seq<char>,
    operator: SqlOperator,
    bind: Seq<char>,
    holds: spec_fn(ExprTree) -> bool,
    shown: spec_fn(ExprTree) -> Seq<char>,
    bound: spec_fn(ExprTree) -> Option<Seq<char>>,
    related: spec_fn(Seq<char>, SqlOperator, Seq<char>) -> bool,
)
    requires
        is_reading(holds, shown, bound, related),
        compares(e, column, operator, bind),
        operator is Greater || operator is Equal,
    ensures
        holds(e) == related(column, operator, bind),
{
    lemma_reading_ignores_parentheses(e, holds, shown, bound, related);
    match bare(e).form {
        FormTree::Binary(left, found, right) => {
            lemma_reading_ignores_parentheses(*left, holds, shown, bound, related);
            lemma_reading_ignores_parentheses(*right, holds, shown, bound, related);
            assert(bound(bare(*right)) == Some(bind));
            assert(shown(bare(*left)) == column);
            assert(holds(bare(e)) == holds(e));
        },
        _ => {},
    }
}

/// A comparison of a column, given by its text, with a bind.
pub open spec fn is_comparison(
    e: ExprTree,
    written: Seq<char>,
    operator: SqlOperator,
    bind: Seq<char>,
) -> bool {
    e.form matches FormTree::Binary(left, found, right) && found == operator && left.text == written
        && !(left.form is Nested) && right.form == FormTree::Placeholder(bind)
}

/// The condition as it is asked for is accepted: a later timestamp, or the same one and a
/// greater tie-breaker.
pub proof fn law_cursor_condition_is_accepted(
    condition: ExprTree,
    later: ExprTree,
    tied: ExprTree,
    equal: ExprTree,
    greater: ExprTree,
    timestamp: Seq<char>,
    tie_breaker: Seq<char>,
)
    requires
        condition.form == FormTree::Binary(Box::new(later), SqlOperator::Or, Box::new(tied)),
        tied.form == FormTree::Binary(Box::new(equal), SqlOperator::And, Box::new(greater)),
        is_comparison(later, timestamp, SqlOperator::Greater, seq!['$', '1']),
        is_comparison(equal, timestamp, SqlOperator::Equal, seq!['$', '1']),
        is_comparison(greater, tie_breaker, SqlOperator::Greater, seq!['$', '2']),
    ensures
        requires_after_cursor(condition, timestamp, tie_breaker),
{
    reveal_strlit("$1");
    reveal_strlit("$2");
    assert("$1"@ =~= seq!['$', '1']);
    assert("$2"@ =~= seq!['$', '2']);
    reveal_with_fuel(bare, 2);
    assert(operands(condition, SqlOperator::Or) == Some((later, tied)));
    assert(operands(tied, SqlOperator::And) == Some((equal, greater)));
    assert(compares(later, timestamp, SqlOperator::Greater, "$1"@));
    assert(compares(equal, timestamp, SqlOperator::Equal, "$1"@));
    assert(compares(greater, tie_breaker, SqlOperator::Greater, "$2"@));
}

/// A condition that is accepted is still accepted in parentheses, and with any other
/// condition joined to it by `AND` on either side.
pub proof fn law_accepted_condition_may_be_narrowed(
    condition: ExprTree,
    outer: ExprTree,
    other: ExprTree,
    timestamp: Seq<char>,
    tie_breaker: Seq<char>,
)
    requires
        requires_after_cursor(condition, timestamp, tie_breaker),
        outer.form == FormTree::Nested(Box::new(condition)) || outer.form == FormTree::Binary(
            Box::new(condition),
            SqlOperator::And,
            Box::new(other),
        ) || outer.form == FormTree::Binary(Box::new(other), SqlOperator::And, Box::new(condition)),
    ensures
        requires_after_cursor(outer, timestamp, tie_breaker),
{
    lemma_bare_again(condition);
    lemma_bare_again(other);
    lemma_bare_keeps_requirement(condition, timestamp, tie_breaker);
    if outer.form is Nested {
        assert(bare(outer) == bare(condition));
        lemma_bare_keeps_requirement(outer, timestamp, tie_breaker);
    }
}

proof fn lemma_bare_again(e: ExprTree)
    ensures
        bare(bare(e)) == bare(e),
    decreases e,
{
    match e.form {
        FormTree::Nested(inner) => lemma_bare_again(*inner),
        _ => {},
    }
}

proof fn lemma_bare_keeps_requirement(e: ExprTree, timestamp: Seq<char>, tie_breaker: Seq<char>)
    ensures
        requires_after_cursor(bare(e), timestamp, tie_breaker) == requires_after_cursor(
            e,
            timestamp,
            tie_breaker,
        ),
{
    lemma_bare_again(e);
    assert(operands(bare(e), SqlOperator::And) == operands(e, SqlOperator::And));
    assert(operands(bare(e), SqlOperator::Or) == operands(e, SqlOperator::Or));
}

} // verus!
