//! Which Oracle statements can be polled by their cursor.
//!
//! A statement is read as words, binds and symbols. It has to be one SELECT whose condition
//! admits only rows after the cursor and whose outermost order is the cursor's.

use crate::oracle::lexer;
use crate::oracle::lexer::{tokenize, Lexeme, Token};
use crate::polling;
use crate::polling::WatermarkConfig;
use crate::text;
use crate::text::{byte_len, lowered, same};
use vstd::prelude::*;

verus! {

/// The longest statement, in bytes.
pub const MAX_STATEMENT_BYTES: usize = 65_536;

/// The cursor's columns and binds, in lower case.
pub struct CursorWords {
    /// The timestamp column.
    pub timestamp: String,
    /// The tie-breaker column.
    pub tie_breaker: String,
    /// The bind of the timestamp.
    pub timestamp_bind: String,
    /// The bind of the tie-breaker.
    pub tie_breaker_bind: String,
}

/// The cursor's columns and binds as mathematical values.
pub struct CursorModel {
    pub timestamp: Seq<char>,
    pub tie_breaker: Seq<char>,
    pub timestamp_bind: Seq<char>,
    pub tie_breaker_bind: Seq<char>,
}

impl View for CursorWords {
    type V = CursorModel;

    open spec fn view(&self) -> CursorModel {
        CursorModel {
            timestamp: self.timestamp@,
            tie_breaker: self.tie_breaker@,
            timestamp_bind: self.timestamp_bind@,
            tie_breaker_bind: self.tie_breaker_bind@,
        }
    }
}

/// The words of a watermark's cursor.
pub open spec fn cursor_words(watermark: WatermarkConfig) -> CursorModel {
    CursorModel {
        timestamp: text::lower(polling::timestamp_part(watermark).column@),
        tie_breaker: text::lower(polling::tie_breaker_part(watermark).column@),
        timestamp_bind: text::lower(polling::timestamp_part(watermark).bind@),
        tie_breaker_bind: text::lower(polling::tie_breaker_part(watermark).bind@),
    }
}

/// Reads the words of a watermark's cursor.
pub fn words_of(watermark: &WatermarkConfig) -> (r: CursorWords)
    ensures
        r@ == cursor_words(*watermark),
{
    CursorWords {
        timestamp: lowered(watermark.timestamp().column.as_str()),
        tie_breaker: lowered(watermark.tie_breaker().column.as_str()),
        timestamp_bind: lowered(watermark.timestamp().bind.as_str()),
        tie_breaker_bind: lowered(watermark.tie_breaker().bind.as_str()),
    }
}

/// How a piece changes the depth: what is within parentheses or within a CASE is deeper.
pub open spec fn deepens(piece: Lexeme) -> int {
    if piece == Lexeme::Symbol('(') || piece == Lexeme::Word("case"@) {
        1
    } else if piece == Lexeme::Symbol(')') || piece == Lexeme::Word("end"@) {
        -1
    } else {
        0
    }
}

/// How deep the piece at `i` stands within the run that starts at `lo`.
pub open spec fn depth(t: Seq<Lexeme>, lo: int, i: int) -> int
    decreases i - lo,
{
    if i <= lo {
        0
    } else {
        depth(t, lo, i - 1) + deepens(t[i - 1])
    }
}

/// The first place from `from` on, within the run from `lo` to `hi`, where a word stands at
/// the run's own depth; `hi` where there is none.
pub open spec fn first_word(t: Seq<Lexeme>, lo: int, from: int, hi: int, word: Seq<char>) -> int
    decreases hi - from,
{
    if from >= hi {
        hi
    } else if depth(t, lo, from) == 0 && t[from] == Lexeme::Word(word) {
        from
    } else {
        first_word(t, lo, from + 1, hi, word)
    }
}

/// The first AND at the run's own depth that joins two conditions; the AND of a BETWEEN does
/// not. `hi` where there is none.
pub open spec fn first_and(t: Seq<Lexeme>, lo: int, from: int, hi: int, between: bool) -> int
    decreases hi - from,
{
    if from >= hi {
        hi
    } else if depth(t, lo, from) != 0 {
        first_and(t, lo, from + 1, hi, between)
    } else if t[from] == Lexeme::Word("and"@) {
        if between {
            first_and(t, lo, from + 1, hi, false)
        } else {
            from
        }
    } else {
        first_and(t, lo, from + 1, hi, between || t[from] == Lexeme::Word("between"@))
    }
}

/// Whether a run is one pair of parentheses and what they hold.
pub open spec fn enclosed(t: Seq<Lexeme>, lo: int, hi: int) -> bool {
    &&& hi - lo >= 2
    &&& t[lo] == Lexeme::Symbol('(')
    &&& t[hi - 1] == Lexeme::Symbol(')')
    &&& forall|i: int| lo < i < hi ==> #[trigger] depth(t, lo, i) > 0
}

/// A run without the parentheses around it.
pub open spec fn inner(t: Seq<Lexeme>, lo: int, hi: int) -> (int, int)
    decreases hi - lo,
{
    if enclosed(t, lo, hi) {
        inner(t, lo + 1, hi - 1)
    } else {
        (lo, hi)
    }
}

/// Whether a run compares a column with a bind.
pub open spec fn compares(
    t: Seq<Lexeme>,
    lo: int,
    hi: int,
    column: Seq<char>,
    operator: char,
    bind: Seq<char>,
) -> bool {
    let (a, b) = inner(t, lo, hi);
    &&& b - a == 3
    &&& t[a] == Lexeme::Word(column)
    &&& t[a + 1] == Lexeme::Symbol(operator)
    &&& t[a + 2] == Lexeme::Bind(bind)
}

/// Whether a run asks for the cursor's timestamp and a greater tie-breaker.
pub open spec fn breaks_tie(t: Seq<Lexeme>, lo: int, hi: int, cursor: CursorModel) -> bool {
    let (a, b) = inner(t, lo, hi);
    let and = first_and(t, a, a, b, false);
    &&& first_word(t, a, a, b, "or"@) >= b
    &&& and < b
    &&& compares(t, a, and, cursor.timestamp, '=', cursor.timestamp_bind)
    &&& compares(t, and + 1, b, cursor.tie_breaker, '>', cursor.tie_breaker_bind)
}

/// Whether a run asks for a greater timestamp, or for the cursor's timestamp and a greater
/// tie-breaker, in one of the conditions that it joins by AND.
pub open spec fn is_keyset(t: Seq<Lexeme>, lo: int, hi: int, cursor: CursorModel) -> bool
    decreases hi - lo,
{
    proof {
        lemma_inner(t, lo, hi);
        let (a, b) = inner(t, lo, hi);
        lemma_first_and(t, a, a, b, false);
    }
    let (a, b) = inner(t, lo, hi);
    let or = first_word(t, a, a, b, "or"@);
    let and = first_and(t, a, a, b, false);
    if or < b {
        compares(t, a, or, cursor.timestamp, '>', cursor.timestamp_bind) && breaks_tie(
            t,
            or + 1,
            b,
            cursor,
        )
    } else if and < b {
        is_keyset(t, a, and, cursor) || is_keyset(t, and + 1, b, cursor)
    } else {
        false
    }
}

pub proof fn lemma_inner(t: Seq<Lexeme>, lo: int, hi: int)
    ensures
        lo <= inner(t, lo, hi).0,
        inner(t, lo, hi).1 <= hi,
        lo <= hi ==> inner(t, lo, hi).0 <= inner(t, lo, hi).1,
        lo < hi ==> !enclosed(t, inner(t, lo, hi).0, inner(t, lo, hi).1),
    decreases hi - lo,
{
    if enclosed(t, lo, hi) {
        lemma_inner(t, lo + 1, hi - 1);
    }
}

pub proof fn lemma_first_and(t: Seq<Lexeme>, lo: int, from: int, hi: int, between: bool)
    ensures
        from <= hi ==> from <= first_and(t, lo, from, hi, between) <= hi,
        from > hi ==> first_and(t, lo, from, hi, between) == hi,
    decreases hi - from,
{
    if from < hi {
        lemma_first_and(t, lo, from + 1, hi, between);
        lemma_first_and(t, lo, from + 1, hi, false);
        lemma_first_and(t, lo, from + 1, hi, true);
    }
}

/// Whether some piece among the first ones does not belong into a polled statement, and what
/// an operator is told of it.
pub open spec fn foreign_piece(t: Seq<Lexeme>, cursor: CursorModel, count: int) -> Option<Seq<char>>
    decreases count,
{
    if count <= 0 {
        None
    } else {
        match foreign_piece(t, cursor, count - 1) {
            Some(message) => Some(message),
            None => match t[count - 1] {
                Lexeme::Symbol(c) => if c == ';' {
                    Some("query.statement must be exactly one statement"@)
                } else {
                    None
                },
                Lexeme::Bind(name) => if name != cursor.timestamp_bind && name
                    != cursor.tie_breaker_bind {
                    Some("query.statement may use the watermark binds only"@)
                } else {
                    None
                },
                Lexeme::Word(word) => if word == "union"@ || word == "intersect"@ || word
                    == "minus"@ || word == "except"@ {
                    Some("set operations are not supported"@)
                } else if word == "update"@ && count >= 2 && t[count - 2] == Lexeme::Word(
                    "for"@,
                ) {
                    Some("row locks are not supported"@)
                } else {
                    None
                },
                Lexeme::Quoted => None,
            },
        }
    }
}

/// Whether everything that is opened among the first pieces is closed, in order.
pub open spec fn is_nested(t: Seq<Lexeme>) -> bool {
    depth(t, 0, t.len() as int) == 0 && forall|i: int|
        0 <= i <= t.len() ==> #[trigger] depth(t, 0, i) >= 0
}

/// Where the outermost order starts; the end where there is none.
pub open spec fn order_at(t: Seq<Lexeme>) -> int {
    first_word(t, 0, 0, t.len() as int, "order"@)
}

/// Where the outermost condition starts; the end where there is none.
pub open spec fn where_at(t: Seq<Lexeme>) -> int {
    first_word(t, 0, 0, t.len() as int, "where"@)
}

/// Whether the run of a condition goes on with another clause: a hierarchy, a grouping or a
/// model. A comparison that stands there is no part of the condition.
pub open spec fn has_other_clause(t: Seq<Lexeme>, lo: int, hi: int) -> bool {
    ||| first_word(t, lo, lo, hi, "connect"@) < hi
    ||| first_word(t, lo, lo, hi, "start"@) < hi
    ||| first_word(t, lo, lo, hi, "group"@) < hi
    ||| first_word(t, lo, lo, hi, "having"@) < hi
    ||| first_word(t, lo, lo, hi, "model"@) < hi
}

/// The place after an ASC, or the same place where there is none.
pub open spec fn after_asc(t: Seq<Lexeme>, at: int) -> int {
    if at < t.len() && t[at] == Lexeme::Word("asc"@) {
        at + 1
    } else {
        at
    }
}

/// Whether a statement ends with the cursor's order, ascending.
pub open spec fn is_ordered(t: Seq<Lexeme>, cursor: CursorModel) -> bool {
    let at = order_at(t);
    let comma = after_asc(t, at + 3);
    &&& at + 2 < t.len()
    &&& t[at + 1] == Lexeme::Word("by"@)
    &&& t[at + 2] == Lexeme::Word(cursor.timestamp)
    &&& comma + 1 < t.len()
    &&& t[comma] == Lexeme::Symbol(',')
    &&& t[comma + 1] == Lexeme::Word(cursor.tie_breaker)
    &&& after_asc(t, comma + 2) == t.len()
}

/// Why the pieces of a statement cannot be polled by their cursor, if they cannot.
pub open spec fn pieces_failure(t: Seq<Lexeme>, cursor: CursorModel) -> Option<Seq<char>> {
    let count = t.len() as int;
    if foreign_piece(t, cursor, count) is Some {
        foreign_piece(t, cursor, count)
    } else if count == 0 || t[0] != Lexeme::Word("select"@) {
        Some("query.statement must be a SELECT"@)
    } else if !is_nested(t) {
        Some("query.statement has unbalanced parentheses"@)
    } else if !(where_at(t) < order_at(t) && order_at(t) < count) {
        Some("query.statement requires a WHERE predicate before ORDER BY"@)
    } else if has_other_clause(t, where_at(t) + 1, order_at(t)) {
        Some("hierarchies, groupings and models are not supported"@)
    } else if !is_ordered(t, cursor) {
        Some("ORDER BY must be ascending timestamp then tie-breaker"@)
    } else if !is_keyset(t, where_at(t) + 1, order_at(t), cursor) {
        Some(
            "WHERE must enforce timestamp > bind OR (timestamp = bind AND tie_breaker > bind)"@,
        )
    } else {
        None
    }
}

/// A run of pieces without the semicolon that may end it.
pub open spec fn unended(t: Seq<Lexeme>) -> Seq<Lexeme> {
    if t.len() > 0 && t.last() == Lexeme::Symbol(';') {
        t.drop_last()
    } else {
        t
    }
}

/// Why a statement cannot be polled by its cursor, if it cannot.
pub open spec fn statement_failure(statement: Seq<char>, cursor: CursorModel) -> Option<Seq<char>> {
    if text::bytes_in(statement) > MAX_STATEMENT_BYTES {
        Some("query.statement exceeds 64 KiB"@)
    } else {
        match lexer::statement_pieces(statement) {
            None => Some("query.statement must not contain comments or open quotations"@),
            Some(t) => pieces_failure(unended(t), cursor),
        }
    }
}

fn is_word(token: &Token, word: &str) -> (found: bool)
    ensures
        found == (token@ == Lexeme::Word(word@)),
{
    match token {
        Token::Word(text) => same(text.as_str(), word),
        _ => false,
    }
}

fn is_bind(token: &Token, name: &str) -> (found: bool)
    ensures
        found == (token@ == Lexeme::Bind(name@)),
{
    match token {
        Token::Bind(text) => same(text.as_str(), name),
        _ => false,
    }
}

fn is_symbol(token: &Token, wanted: char) -> (found: bool)
    ensures
        found == (token@ == Lexeme::Symbol(wanted)),
{
    match token {
        Token::Symbol(c) => *c == wanted,
        _ => false,
    }
}

fn change(token: &Token) -> (r: i128)
    ensures
        r == deepens(token@),
{
    if is_symbol(token, '(') || is_word(token, "case") {
        1
    } else if is_symbol(token, ')') || is_word(token, "end") {
        -1
    } else {
        0
    }
}

fn find_word(tokens: &Vec<Token>, lo: usize, hi: usize, word: &str) -> (r: usize)
    requires
        lo <= hi <= tokens@.len(),
    ensures
        lo <= r <= hi,
        r == first_word(lexer::lexemes(tokens@), lo as int, lo as int, hi as int, word@),
{
    let ghost t = lexer::lexemes(tokens@);
    let mut level: i128 = 0;
    let mut i: usize = lo;
    while i < hi
        invariant
            lo <= i <= hi <= tokens@.len(),
            t == lexer::lexemes(tokens@),
            level == depth(t, lo as int, i as int),
            -(i - lo) <= level <= i - lo,
            first_word(t, lo as int, lo as int, hi as int, word@) == first_word(
                t,
                lo as int,
                i as int,
                hi as int,
                word@,
            ),
        decreases hi - i,
    {
        assert(t[i as int] == tokens@[i as int]@);
        if level == 0 && is_word(&tokens[i], word) {
            return i;
        }
        level = level + change(&tokens[i]);
        i += 1;
    }
    hi
}

fn find_and(tokens: &Vec<Token>, lo: usize, hi: usize) -> (r: usize)
    requires
        lo <= hi <= tokens@.len(),
    ensures
        lo <= r <= hi,
        r == first_and(lexer::lexemes(tokens@), lo as int, lo as int, hi as int, false),
{
    let ghost t = lexer::lexemes(tokens@);
    let mut level: i128 = 0;
    let mut between: bool = false;
    let mut i: usize = lo;
    while i < hi
        invariant
            lo <= i <= hi <= tokens@.len(),
            t == lexer::lexemes(tokens@),
            level == depth(t, lo as int, i as int),
            -(i - lo) <= level <= i - lo,
            first_and(t, lo as int, lo as int, hi as int, false) == first_and(
                t,
                lo as int,
                i as int,
                hi as int,
                between,
            ),
        decreases hi - i,
    {
        assert(t[i as int] == tokens@[i as int]@);
        if level == 0 {
            if is_word(&tokens[i], "and") {
                if !between {
                    return i;
                }
                between = false;
            } else if is_word(&tokens[i], "between") {
                between = true;
            }
        }
        level = level + change(&tokens[i]);
        i += 1;
    }
    hi
}

fn is_enclosed(tokens: &Vec<Token>, lo: usize, hi: usize) -> (found: bool)
    requires
        lo <= hi <= tokens@.len(),
    ensures
        found == enclosed(lexer::lexemes(tokens@), lo as int, hi as int),
{
    let ghost t = lexer::lexemes(tokens@);
    if hi - lo < 2 {
        return false;
    }
    assert(t[lo as int] == tokens@[lo as int]@);
    assert(t[hi - 1] == tokens@[hi - 1]@);
    if !is_symbol(&tokens[lo], '(') || !is_symbol(&tokens[hi - 1], ')') {
        return false;
    }
    let mut level: i128 = 1;
    let mut i: usize = lo + 1;
    assert(depth(t, lo as int, lo as int) == 0);
    while i < hi
        invariant
            lo < i <= hi <= tokens@.len(),
            t == lexer::lexemes(tokens@),
            level == depth(t, lo as int, i as int),
            -(i - lo) <= level <= i - lo,
            forall|k: int| lo < k < i ==> #[trigger] depth(t, lo as int, k) > 0,
        decreases hi - i,
    {
        if level <= 0 {
            assert(depth(t, lo as int, i as int) <= 0);
            return false;
        }
        assert(t[i as int] == tokens@[i as int]@);
        level = level + change(&tokens[i]);
        i += 1;
    }
    true
}

fn inner_run(tokens: &Vec<Token>, lo: usize, hi: usize) -> (r: (usize, usize))
    requires
        lo <= hi <= tokens@.len(),
    ensures
        (r.0 as int, r.1 as int) == inner(lexer::lexemes(tokens@), lo as int, hi as int),
        lo <= r.0 <= r.1 <= hi,
{
    let ghost t = lexer::lexemes(tokens@);
    let mut a: usize = lo;
    let mut b: usize = hi;
    while is_enclosed(tokens, a, b)
        invariant
            lo <= a <= b <= hi <= tokens@.len(),
            t == lexer::lexemes(tokens@),
            inner(t, lo as int, hi as int) == inner(t, a as int, b as int),
        decreases b - a,
    {
        a += 1;
        b -= 1;
    }
    (a, b)
}

fn is_comparison(
    tokens: &Vec<Token>,
    lo: usize,
    hi: usize,
    column: &str,
    operator: char,
    bind: &str,
) -> (found: bool)
    requires
        lo <= hi <= tokens@.len(),
    ensures
        found == compares(
            lexer::lexemes(tokens@),
            lo as int,
            hi as int,
            column@,
            operator,
            bind@,
        ),
{
    let (a, b) = inner_run(tokens, lo, hi);
    if b - a != 3 {
        return false;
    }
    let ghost t = lexer::lexemes(tokens@);
    assert(t[a as int] == tokens@[a as int]@);
    assert(t[a + 1] == tokens@[a + 1]@);
    assert(t[a + 2] == tokens@[a + 2]@);
    is_word(&tokens[a], column) && is_symbol(&tokens[a + 1], operator) && is_bind(
        &tokens[a + 2],
        bind,
    )
}

fn is_tie_break(tokens: &Vec<Token>, lo: usize, hi: usize, cursor: &CursorWords) -> (found: bool)
    requires
        lo <= hi <= tokens@.len(),
    ensures
        found == breaks_tie(lexer::lexemes(tokens@), lo as int, hi as int, cursor@),
{
    let (a, b) = inner_run(tokens, lo, hi);
    if find_word(tokens, a, b, "or") < b {
        return false;
    }
    let and: usize = find_and(tokens, a, b);
    if and >= b {
        return false;
    }
    is_comparison(
        tokens,
        a,
        and,
        cursor.timestamp.as_str(),
        '=',
        cursor.timestamp_bind.as_str(),
    ) && is_comparison(
        tokens,
        and + 1,
        b,
        cursor.tie_breaker.as_str(),
        '>',
        cursor.tie_breaker_bind.as_str(),
    )
}

fn keyset(tokens: &Vec<Token>, lo: usize, hi: usize, cursor: &CursorWords) -> (found: bool)
    requires
        lo <= hi <= tokens@.len(),
    ensures
        found == is_keyset(lexer::lexemes(tokens@), lo as int, hi as int, cursor@),
    decreases hi - lo,
{
    let (a, b) = inner_run(tokens, lo, hi);
    let or: usize = find_word(tokens, a, b, "or");
    if or < b {
        return is_comparison(
            tokens,
            a,
            or,
            cursor.timestamp.as_str(),
            '>',
            cursor.timestamp_bind.as_str(),
        ) && is_tie_break(tokens, or + 1, b, cursor);
    }
    let and: usize = find_and(tokens, a, b);
    if and < b {
        return keyset(tokens, a, and, cursor) || keyset(tokens, and + 1, b, cursor);
    }
    false
}

proof fn lemma_foreign_piece(t: Seq<Lexeme>, cursor: CursorModel, at: int, count: int)
    requires
        0 <= at <= count,
        foreign_piece(t, cursor, at) is Some,
    ensures
        foreign_piece(t, cursor, count) == foreign_piece(t, cursor, at),
    decreases count,
{
    if at < count {
        lemma_foreign_piece(t, cursor, at, count - 1);
    }
}

fn find_foreign(tokens: &Vec<Token>, cursor: &CursorWords) -> (r: Option<&'static str>)
    ensures
        ({
            let t = lexer::lexemes(tokens@);
            match r {
                Some(message) => foreign_piece(t, cursor@, t.len() as int) == Some(message@),
                None => foreign_piece(t, cursor@, t.len() as int) is None,
            }
        }),
{
    let ghost t = lexer::lexemes(tokens@);
    let mut i: usize = 0;
    while i < tokens.len()
        invariant
            i <= tokens@.len(),
            t == lexer::lexemes(tokens@),
            foreign_piece(t, cursor@, i as int) is None,
        decreases tokens.len() - i,
    {
        assert(t[i as int] == tokens@[i as int]@);
        let mut found: Option<&'static str> = None;
        match &tokens[i] {
            Token::Symbol(c) => {
                if *c == ';' {
                    found = Some("query.statement must be exactly one statement");
                }
            },
            Token::Bind(name) => {
                if !same(name.as_str(), cursor.timestamp_bind.as_str()) && !same(
                    name.as_str(),
                    cursor.tie_breaker_bind.as_str(),
                ) {
                    found = Some("query.statement may use the watermark binds only");
                }
            },
            Token::Word(word) => {
                if same(word.as_str(), "union") || same(word.as_str(), "intersect") || same(
                    word.as_str(),
                    "minus",
                ) || same(word.as_str(), "except") {
                    found = Some("set operations are not supported");
                } else if same(word.as_str(), "update") && i >= 1 && is_word(
                    &tokens[i - 1],
                    "for",
                ) {
                    assert(t[i - 1] == tokens@[i - 1]@);
                    found = Some("row locks are not supported");
                } else if i >= 1 {
                    assert(t[i - 1] == tokens@[i - 1]@);
                }
            },
            Token::Quoted => {},
        }
        if found.is_some() {
            proof {
                lemma_foreign_piece(t, cursor@, i + 1, t.len() as int);
            }
            return found;
        }
        i += 1;
    }
    None
}

fn nested(tokens: &Vec<Token>) -> (found: bool)
    ensures
        found == is_nested(lexer::lexemes(tokens@)),
{
    let ghost t = lexer::lexemes(tokens@);
    let mut level: i128 = 0;
    let mut i: usize = 0;
    while i < tokens.len()
        invariant
            i <= tokens@.len(),
            t == lexer::lexemes(tokens@),
            level == depth(t, 0, i as int),
            0 <= level <= i,
            forall|k: int| 0 <= k <= i ==> #[trigger] depth(t, 0, k) >= 0,
        decreases tokens.len() - i,
    {
        assert(t[i as int] == tokens@[i as int]@);
        level = level + change(&tokens[i]);
        i += 1;
        if level < 0 {
            assert(depth(t, 0, i as int) < 0);
            return false;
        }
    }
    level == 0
}

fn skip_asc(tokens: &Vec<Token>, at: usize) -> (r: usize)
    requires
        at <= tokens@.len(),
    ensures
        r == after_asc(lexer::lexemes(tokens@), at as int),
        at <= r <= tokens@.len(),
{
    let ghost t = lexer::lexemes(tokens@);
    if at < tokens.len() {
        assert(t[at as int] == tokens@[at as int]@);
        if is_word(&tokens[at], "asc") {
            return at + 1;
        }
    }
    at
}

fn ordered(tokens: &Vec<Token>, at: usize, cursor: &CursorWords) -> (found: bool)
    requires
        at == order_at(lexer::lexemes(tokens@)),
        at <= tokens@.len(),
    ensures
        found == is_ordered(lexer::lexemes(tokens@), cursor@),
{
    let ghost t = lexer::lexemes(tokens@);
    if tokens.len() - at <= 2 {
        return false;
    }
    assert(t[at + 1] == tokens@[at + 1]@);
    assert(t[at + 2] == tokens@[at + 2]@);
    let comma: usize = skip_asc(tokens, at + 3);
    if tokens.len() - comma <= 1 {
        return false;
    }
    assert(t[comma as int] == tokens@[comma as int]@);
    assert(t[comma + 1] == tokens@[comma + 1]@);
    is_word(&tokens[at + 1], "by") && is_word(&tokens[at + 2], cursor.timestamp.as_str())
        && is_symbol(&tokens[comma], ',') && is_word(
        &tokens[comma + 1],
        cursor.tie_breaker.as_str(),
    ) && skip_asc(tokens, comma + 2) == tokens.len()
}

fn other_clause(tokens: &Vec<Token>, lo: usize, hi: usize) -> (found: bool)
    requires
        lo <= hi <= tokens@.len(),
    ensures
        found == has_other_clause(lexer::lexemes(tokens@), lo as int, hi as int),
{
    find_word(tokens, lo, hi, "connect") < hi || find_word(tokens, lo, hi, "start") < hi
        || find_word(tokens, lo, hi, "group") < hi || find_word(tokens, lo, hi, "having") < hi
        || find_word(tokens, lo, hi, "model") < hi
}

/// Checks that the pieces of a statement can be polled by their cursor.
pub fn validate_pieces(tokens: &Vec<Token>, cursor: &CursorWords) -> (r: Result<(), &'static str>)
    ensures
        match r {
            Ok(()) => pieces_failure(lexer::lexemes(tokens@), cursor@) is None,
            Err(message) => pieces_failure(lexer::lexemes(tokens@), cursor@) == Some(message@),
        },
{
    let ghost t = lexer::lexemes(tokens@);
    if let Some(message) = find_foreign(tokens, cursor) {
        return Err(message);
    }
    let count: usize = tokens.len();
    if count == 0 {
        return Err("query.statement must be a SELECT");
    }
    assert(t[0] == tokens@[0]@);
    if !is_word(&tokens[0], "select") {
        return Err("query.statement must be a SELECT");
    }
    if !nested(tokens) {
        return Err("query.statement has unbalanced parentheses");
    }
    let condition: usize = find_word(tokens, 0, count, "where");
    let order: usize = find_word(tokens, 0, count, "order");
    if !(condition < order && order < count) {
        return Err("query.statement requires a WHERE predicate before ORDER BY");
    }
    if other_clause(tokens, condition + 1, order) {
        return Err("hierarchies, groupings and models are not supported");
    }
    if !ordered(tokens, order, cursor) {
        return Err("ORDER BY must be ascending timestamp then tie-breaker");
    }
    if !keyset(tokens, condition + 1, order, cursor) {
        return Err(
            "WHERE must enforce timestamp > bind OR (timestamp = bind AND tie_breaker > bind)",
        );
    }
    Ok(())
}

/// Checks that a statement can be polled by its cursor.
pub fn validate_statement(statement: &str, cursor: &CursorWords) -> (r: Result<(), &'static str>)
    ensures
        match r {
            Ok(()) => statement_failure(statement@, cursor@) is None,
            Err(message) => statement_failure(statement@, cursor@) == Some(message@),
        },
{
    if byte_len(statement) > MAX_STATEMENT_BYTES {
        return Err("query.statement exceeds 64 KiB");
    }
    let mut tokens: Vec<Token> = match tokenize(statement) {
        None => {
            return Err("query.statement must not contain comments or open quotations");
        },
        Some(tokens) => tokens,
    };
    let ghost t = lexer::lexemes(tokens@);
    let count: usize = tokens.len();
    if count > 0 {
        assert(t.last() == tokens@.last()@);
        if is_symbol(&tokens[count - 1], ';') {
            let _ = tokens.pop();
            assert(lexer::lexemes(tokens@) =~= t.drop_last());
        }
    }
    validate_pieces(&tokens, cursor)
}

/// A position: a timestamp and a tie-breaker.
pub struct Place {
    pub timestamp: int,
    pub tie_breaker: int,
}

/// Whether a position is after another.
pub open spec fn is_after(row: Place, cursor: Place) -> bool {
    row.timestamp > cursor.timestamp || (row.timestamp == cursor.timestamp && row.tie_breaker
        > cursor.tie_breaker)
}

/// Whether one run of a condition is given its truth as SQL does: parentheses change nothing,
/// OR binds weaker than AND, and a comparison of a cursor column with its bind compares the
/// row with the position that is bound.
pub open spec fn reads_run(
    t: Seq<Lexeme>,
    truth: spec_fn(int, int) -> bool,
    words: CursorModel,
    row: Place,
    bound: Place,
    lo: int,
    hi: int,
) -> bool {
    let or = first_word(t, lo, lo, hi, "or"@);
    let and = first_and(t, lo, lo, hi, false);
    let compared = hi - lo == 3;
    &&& enclosed(t, lo, hi) ==> truth(lo, hi) == truth(lo + 1, hi - 1)
    &&& or < hi ==> truth(lo, hi) == (truth(lo, or) || truth(or + 1, hi))
    &&& or >= hi && and < hi ==> truth(lo, hi) == (truth(lo, and) && truth(and + 1, hi))
    &&& compared && t[lo] == Lexeme::Word(words.timestamp) && t[lo + 1] == Lexeme::Symbol('>')
        && t[lo + 2] == Lexeme::Bind(words.timestamp_bind) ==> truth(lo, hi) == (row.timestamp
        > bound.timestamp)
    &&& compared && t[lo] == Lexeme::Word(words.timestamp) && t[lo + 1] == Lexeme::Symbol('=')
        && t[lo + 2] == Lexeme::Bind(words.timestamp_bind) ==> truth(lo, hi) == (row.timestamp
        == bound.timestamp)
    &&& compared && t[lo] == Lexeme::Word(words.tie_breaker) && t[lo + 1] == Lexeme::Symbol('>')
        && t[lo + 2] == Lexeme::Bind(words.tie_breaker_bind) ==> truth(lo, hi) == (
    row.tie_breaker > bound.tie_breaker)
}

/// Whether every run of a condition is given its truth as SQL does.
pub open spec fn reads_as_sql(
    t: Seq<Lexeme>,
    truth: spec_fn(int, int) -> bool,
    words: CursorModel,
    row: Place,
    bound: Place,
) -> bool {
    forall|lo: int, hi: int| #[trigger] reads_run(t, truth, words, row, bound, lo, hi)
}

proof fn lemma_inner_truth(
    t: Seq<Lexeme>,
    truth: spec_fn(int, int) -> bool,
    words: CursorModel,
    row: Place,
    bound: Place,
    lo: int,
    hi: int,
)
    requires
        reads_as_sql(t, truth, words, row, bound),
    ensures
        truth(lo, hi) == truth(inner(t, lo, hi).0, inner(t, lo, hi).1),
    decreases hi - lo,
{
    if enclosed(t, lo, hi) {
        assert(reads_run(t, truth, words, row, bound, lo, hi));
        lemma_inner_truth(t, truth, words, row, bound, lo + 1, hi - 1);
    }
}

/// Whatever else a condition says, a row for which an accepted condition holds is after the
/// position that is bound.
pub proof fn law_accepted_condition_bounds_the_rows(
    t: Seq<Lexeme>,
    truth: spec_fn(int, int) -> bool,
    words: CursorModel,
    row: Place,
    bound: Place,
    lo: int,
    hi: int,
)
    requires
        reads_as_sql(t, truth, words, row, bound),
        is_keyset(t, lo, hi, words),
        truth(lo, hi),
    ensures
        is_after(row, bound),
    decreases hi - lo,
{
    lemma_inner(t, lo, hi);
    lemma_inner_truth(t, truth, words, row, bound, lo, hi);
    let (a, b) = inner(t, lo, hi);
    assert(reads_run(t, truth, words, row, bound, a, b));
    let or = first_word(t, a, a, b, "or"@);
    let and = first_and(t, a, a, b, false);
    lemma_first_and(t, a, a, b, false);
    if or < b {
        let (c, d) = inner(t, a, or);
        lemma_inner_truth(t, truth, words, row, bound, a, or);
        assert(reads_run(t, truth, words, row, bound, c, d));
        lemma_inner_truth(t, truth, words, row, bound, or + 1, b);
        let (e, f) = inner(t, or + 1, b);
        assert(reads_run(t, truth, words, row, bound, e, f));
        let split = first_and(t, e, e, f, false);
        lemma_inner_truth(t, truth, words, row, bound, e, split);
        lemma_inner_truth(t, truth, words, row, bound, split + 1, f);
        let (g, h) = inner(t, e, split);
        let (k, l) = inner(t, split + 1, f);
        assert(reads_run(t, truth, words, row, bound, g, h));
        assert(reads_run(t, truth, words, row, bound, k, l));
    } else if is_keyset(t, a, and, words) {
        law_accepted_condition_bounds_the_rows(t, truth, words, row, bound, a, and);
    } else {
        law_accepted_condition_bounds_the_rows(t, truth, words, row, bound, and + 1, b);
    }
}

/// An accepted statement reads each row once: it returns rows after the position that is
/// bound only, in the order of the cursor.
pub proof fn law_accepted_statement_is_incremental(
    statement: Seq<char>,
    truth: spec_fn(int, int) -> bool,
    words: CursorModel,
    row: Place,
    bound: Place,
)
    requires
        statement_failure(statement, words) is None,
    ensures
        ({
            let t = unended(lexer::statement_pieces(statement)->0);
            &&& lexer::statement_pieces(statement) is Some
            &&& is_ordered(t, words)
            &&& !has_other_clause(t, where_at(t) + 1, order_at(t))
            &&& reads_as_sql(t, truth, words, row, bound) && truth(where_at(t) + 1, order_at(t))
                ==> is_after(row, bound)
        }),
{
    let t = unended(lexer::statement_pieces(statement)->0);
    if reads_as_sql(t, truth, words, row, bound) && truth(where_at(t) + 1, order_at(t)) {
        law_accepted_condition_bounds_the_rows(
            t,
            truth,
            words,
            row,
            bound,
            where_at(t) + 1,
            order_at(t),
        );
    }
}

/// How many parentheses and CASEs are open before a piece, counted from the start of its run.
pub open spec fn level(t: Seq<Lexeme>, lo: int, i: int) -> int
    decreases i - lo,
{
    if i <= lo {
        0
    } else {
        level(t, lo, i - 1) + match t[i - 1] {
            Lexeme::Symbol(c) => if c == '(' {
                1int
            } else if c == ')' {
                -1int
            } else {
                0int
            },
            Lexeme::Word(word) => if word == "case"@ {
                1int
            } else if word == "end"@ {
                -1int
            } else {
                0int
            },
            _ => 0int,
        }
    }
}

/// Whether a word stands at a place of a run, outside all parentheses and CASEs within the
/// run.
pub open spec fn splits(t: Seq<Lexeme>, lo: int, hi: int, at: int, word: Seq<char>) -> bool {
    lo <= at < hi && level(t, lo, at) == 0 && t[at] == Lexeme::Word(word)
}

/// Whether a BETWEEN before a place still waits for its AND.
pub open spec fn pending(t: Seq<Lexeme>, lo: int, i: int) -> bool
    decreases i - lo,
{
    if i <= lo {
        false
    } else if level(t, lo, i - 1) != 0 {
        pending(t, lo, i - 1)
    } else if t[i - 1] == Lexeme::Word("between"@) {
        true
    } else if t[i - 1] == Lexeme::Word("and"@) {
        false
    } else {
        pending(t, lo, i - 1)
    }
}

/// Whether a run is one pair of parentheses around the rest.
pub open spec fn is_wrapped(t: Seq<Lexeme>, lo: int, hi: int) -> bool {
    &&& hi - lo >= 2
    &&& t[lo] == Lexeme::Symbol('(')
    &&& t[hi - 1] == Lexeme::Symbol(')')
    &&& forall|i: int| lo < i < hi ==> #[trigger] level(t, lo, i) > 0
}

/// Whether a run is a word, a symbol and a bind.
pub open spec fn relates(
    t: Seq<Lexeme>,
    lo: int,
    hi: int,
    column: Seq<char>,
    symbol: char,
    bind: Seq<char>,
) -> bool {
    hi == lo + 3 && t[lo] == Lexeme::Word(column) && t[lo + 1] == Lexeme::Symbol(symbol) && t[lo
        + 2] == Lexeme::Bind(bind)
}

/// Whether a run of a condition is given its truth as SQL gives it: parentheses around it
/// change nothing; at an OR outside of any it holds where either side does; without an OR, at
/// an AND that belongs to no BETWEEN, where both sides do; and a comparison of a cursor column
/// with its bind where the row's value so compares with the bound one.
pub open spec fn gives_truth(
    t: Seq<Lexeme>,
    truth: spec_fn(int, int) -> bool,
    words: CursorModel,
    row: Place,
    bound: Place,
    lo: int,
    hi: int,
    at: int,
) -> bool {
    &&& is_wrapped(t, lo, hi) ==> truth(lo, hi) == truth(lo + 1, hi - 1)
    &&& splits(t, lo, hi, at, "or"@) ==> truth(lo, hi) == (truth(lo, at) || truth(at + 1, hi))
    &&& splits(t, lo, hi, at, "and"@) && !pending(t, lo, at) && (forall|k: int|
        !#[trigger] splits(t, lo, hi, k, "or"@)) ==> truth(lo, hi) == (truth(lo, at) && truth(
        at + 1,
        hi,
    ))
    &&& relates(t, lo, hi, words.timestamp, '>', words.timestamp_bind) ==> truth(lo, hi) == (
    row.timestamp > bound.timestamp)
    &&& relates(t, lo, hi, words.timestamp, '=', words.timestamp_bind) ==> truth(lo, hi) == (
    row.timestamp == bound.timestamp)
    &&& relates(t, lo, hi, words.tie_breaker, '>', words.tie_breaker_bind) ==> truth(lo, hi)
        == (row.tie_breaker > bound.tie_breaker)
}

/// Whether every run of a condition is given its truth as SQL gives it.
pub open spec fn gives_truths(
    t: Seq<Lexeme>,
    truth: spec_fn(int, int) -> bool,
    words: CursorModel,
    row: Place,
    bound: Place,
) -> bool {
    forall|lo: int, hi: int, at: int| #[trigger]
        gives_truth(t, truth, words, row, bound, lo, hi, at)
}

proof fn lemma_level_is_depth(t: Seq<Lexeme>, lo: int, i: int)
    ensures
        level(t, lo, i) == depth(t, lo, i),
    decreases i - lo,
{
    if i > lo {
        lemma_level_is_depth(t, lo, i - 1);
    }
}

proof fn lemma_wrapped_is_enclosed(t: Seq<Lexeme>, lo: int, hi: int)
    ensures
        is_wrapped(t, lo, hi) == enclosed(t, lo, hi),
{
    assert forall|i: int| #[trigger] level(t, lo, i) == depth(t, lo, i) by {
        lemma_level_is_depth(t, lo, i);
    }
    if is_wrapped(t, lo, hi) {
        assert forall|i: int| lo < i < hi implies #[trigger] depth(t, lo, i) > 0 by {
            assert(level(t, lo, i) > 0);
        }
    }
}

proof fn lemma_first_word_found(
    t: Seq<Lexeme>,
    lo: int,
    from: int,
    hi: int,
    word: Seq<char>,
)
    requires
        lo <= from,
    ensures
        first_word(t, lo, from, hi, word) < hi ==> splits(
            t,
            lo,
            hi,
            first_word(t, lo, from, hi, word),
            word,
        ),
        first_word(t, lo, from, hi, word) >= hi ==> forall|k: int|
            from <= k ==> !#[trigger] splits(t, lo, hi, k, word),
        from <= hi ==> from <= first_word(t, lo, from, hi, word) <= hi,
        forall|k: int|
            from <= k < first_word(t, lo, from, hi, word) ==> !#[trigger] splits(t, lo, hi, k, word),
    decreases hi - from,
{
    if from < hi {
        lemma_level_is_depth(t, lo, from);
        lemma_first_word_found(t, lo, from + 1, hi, word);
    }
}

proof fn lemma_first_and_found(t: Seq<Lexeme>, lo: int, from: int, hi: int, between: bool)
    requires
        lo <= from,
        between == pending(t, lo, from),
    ensures
        first_and(t, lo, from, hi, between) < hi ==> splits(
            t,
            lo,
            hi,
            first_and(t, lo, from, hi, between),
            "and"@,
        ) && !pending(t, lo, first_and(t, lo, from, hi, between)),
    decreases hi - from,
{
    reveal_strlit("and");
    reveal_strlit("between");
    assert("and"@.len() != "between"@.len());
    if from < hi {
        lemma_level_is_depth(t, lo, from);
        if depth(t, lo, from) != 0 {
            lemma_first_and_found(t, lo, from + 1, hi, between);
        } else if t[from] == Lexeme::Word("and"@) {
            if between {
                lemma_first_and_found(t, lo, from + 1, hi, false);
            }
        } else {
            lemma_first_and_found(
                t,
                lo,
                from + 1,
                hi,
                between || t[from] == Lexeme::Word("between"@),
            );
        }
    }
}

proof fn lemma_given_inside(
    t: Seq<Lexeme>,
    truth: spec_fn(int, int) -> bool,
    words: CursorModel,
    row: Place,
    bound: Place,
    lo: int,
    hi: int,
)
    requires
        gives_truths(t, truth, words, row, bound),
    ensures
        truth(lo, hi) == truth(inner(t, lo, hi).0, inner(t, lo, hi).1),
    decreases hi - lo,
{
    lemma_wrapped_is_enclosed(t, lo, hi);
    if enclosed(t, lo, hi) {
        assert(gives_truth(t, truth, words, row, bound, lo, hi, lo));
        lemma_given_inside(t, truth, words, row, bound, lo + 1, hi - 1);
    }
}

/// However the runs of a condition are given their truth by the rules of SQL, an accepted
/// condition holds of no row that is not after the bound position.
pub proof fn law_accepted_condition_admits_later_rows_alone(
    t: Seq<Lexeme>,
    truth: spec_fn(int, int) -> bool,
    words: CursorModel,
    row: Place,
    bound: Place,
    lo: int,
    hi: int,
)
    requires
        gives_truths(t, truth, words, row, bound),
        is_keyset(t, lo, hi, words),
        truth(lo, hi),
    ensures
        row.timestamp > bound.timestamp || (row.timestamp == bound.timestamp && row.tie_breaker
            > bound.tie_breaker),
    decreases hi - lo,
{
    lemma_inner(t, lo, hi);
    lemma_given_inside(t, truth, words, row, bound, lo, hi);
    let (a, b) = inner(t, lo, hi);
    let or = first_word(t, a, a, b, "or"@);
    let and = first_and(t, a, a, b, false);
    lemma_first_word_found(t, a, a, b, "or"@);
    lemma_first_and(t, a, a, b, false);
    lemma_first_and_found(t, a, a, b, false);
    if or < b {
        assert(gives_truth(t, truth, words, row, bound, a, b, or));
        let (c, d) = inner(t, a, or);
        lemma_given_inside(t, truth, words, row, bound, a, or);
        assert(gives_truth(t, truth, words, row, bound, c, d, c));
        lemma_given_inside(t, truth, words, row, bound, or + 1, b);
        let (e, f) = inner(t, or + 1, b);
        let split = first_and(t, e, e, f, false);
        lemma_first_word_found(t, e, e, f, "or"@);
        lemma_first_and_found(t, e, e, f, false);
        assert(forall|k: int| !#[trigger] splits(t, e, f, k, "or"@));
        assert(gives_truth(t, truth, words, row, bound, e, f, split));
        lemma_given_inside(t, truth, words, row, bound, e, split);
        lemma_given_inside(t, truth, words, row, bound, split + 1, f);
        let (g, h) = inner(t, e, split);
        let (k, l) = inner(t, split + 1, f);
        assert(gives_truth(t, truth, words, row, bound, g, h, g));
        assert(gives_truth(t, truth, words, row, bound, k, l, k));
    } else {
        assert(forall|k: int| !#[trigger] splits(t, a, b, k, "or"@));
        assert(gives_truth(t, truth, words, row, bound, a, b, and));
        if is_keyset(t, a, and, words) {
            law_accepted_condition_admits_later_rows_alone(t, truth, words, row, bound, a, and);
        } else {
            law_accepted_condition_admits_later_rows_alone(t, truth, words, row, bound, and + 1, b);
        }
    }
}

/// The words of the cursor's order, each column with or without its `ASC`.
pub open spec fn cursor_order(words: CursorModel, first: bool, second: bool) -> Seq<Lexeme> {
    let asc = Lexeme::Word("asc"@);
    let by = seq![Lexeme::Word("order"@), Lexeme::Word("by"@), Lexeme::Word(words.timestamp)];
    let then = seq![Lexeme::Symbol(','), Lexeme::Word(words.tie_breaker)];
    by + if first {
        seq![asc]
    } else {
        seq![]
    } + then + if second {
        seq![asc]
    } else {
        seq![]
    }
}

/// An accepted statement is a SELECT that ends with `ORDER BY` the timestamp and the
/// tie-breaker, each followed by `ASC` or by nothing, and by nothing else: no other column and
/// no `DESC`. That is its first order outside of parentheses.
pub proof fn law_accepted_statement_ends_with_the_cursor_order(t: Seq<Lexeme>, words: CursorModel)
    requires
        pieces_failure(t, words) is None,
    ensures
        t.len() > 0 && t[0] == Lexeme::Word("select"@),
        exists|at: int, first: bool, second: bool|
            0 <= at <= t.len() && splits(t, 0, t.len() as int, at, "order"@) && #[trigger] t.skip(
                at,
            ) == #[trigger] cursor_order(words, first, second) && (forall|k: int|
                0 <= k < at ==> !#[trigger] splits(t, 0, t.len() as int, k, "order"@)),
{
    let at = order_at(t);
    lemma_first_word_found(t, 0, 0, t.len() as int, "order"@);
    let asc = Lexeme::Word("asc"@);
    let first = at + 3 < t.len() && t[at + 3] == asc;
    let comma = after_asc(t, at + 3);
    let second = comma + 2 < t.len() && t[comma + 2] == asc;
    let wanted = cursor_order(words, first, second);
    assert(t.skip(at) =~= wanted) by {
        assert forall|i: int| 0 <= i < wanted.len() implies t.skip(at)[i] == wanted[i] by {
            if first {
                assert(comma == at + 4);
            } else {
                assert(comma == at + 3);
            }
        }
    }
    assert(t.skip(at) == cursor_order(words, first, second));
}

/// Between its WHERE and its order an accepted statement has a condition and no other clause,
/// and all of it is balanced: nothing is closed that was not opened, and nothing stays open.
pub proof fn law_accepted_statement_has_a_lone_condition(t: Seq<Lexeme>, words: CursorModel)
    requires
        pieces_failure(t, words) is None,
    ensures
        splits(t, 0, t.len() as int, where_at(t), "where"@),
        splits(t, 0, t.len() as int, order_at(t), "order"@),
        where_at(t) < order_at(t),
        is_keyset(t, where_at(t) + 1, order_at(t), words),
        forall|k: int|
            !#[trigger] splits(t, where_at(t) + 1, order_at(t), k, "connect"@) && !splits(
                t,
                where_at(t) + 1,
                order_at(t),
                k,
                "start"@,
            ) && !splits(t, where_at(t) + 1, order_at(t), k, "group"@) && !splits(
                t,
                where_at(t) + 1,
                order_at(t),
                k,
                "having"@,
            ) && !splits(t, where_at(t) + 1, order_at(t), k, "model"@),
        level(t, 0, t.len() as int) == 0,
        forall|i: int| 0 <= i <= t.len() ==> #[trigger] level(t, 0, i) >= 0,
{
    let lo = where_at(t) + 1;
    let hi = order_at(t);
    lemma_first_word_found(t, 0, 0, t.len() as int, "order"@);
    lemma_first_word_found(t, 0, 0, t.len() as int, "where"@);
    lemma_first_word_found(t, lo, lo, hi, "connect"@);
    lemma_first_word_found(t, lo, lo, hi, "start"@);
    lemma_first_word_found(t, lo, lo, hi, "group"@);
    lemma_first_word_found(t, lo, lo, hi, "having"@);
    lemma_first_word_found(t, lo, lo, hi, "model"@);
    lemma_level_is_depth(t, 0, t.len() as int);
    assert forall|i: int| 0 <= i <= t.len() implies #[trigger] level(t, 0, i) >= 0 by {
        lemma_level_is_depth(t, 0, i);
        assert(depth(t, 0, i) >= 0);
    }
}

/// An accepted statement is one statement with the cursor's binds alone, without set
/// operations and row locks.
pub proof fn law_accepted_statement_holds_nothing_foreign(
    t: Seq<Lexeme>,
    words: CursorModel,
    count: int,
)
    requires
        0 <= count <= t.len(),
    ensures
        foreign_piece(t, words, count) is None <==> forall|i: int|
            0 <= i < count ==> match #[trigger] t[i] {
                Lexeme::Symbol(c) => c != ';',
                Lexeme::Bind(name) => name == words.timestamp_bind || name
                    == words.tie_breaker_bind,
                Lexeme::Word(word) => word != "union"@ && word != "intersect"@ && word != "minus"@
                    && word != "except"@ && !(word == "update"@ && i > 0 && t[i - 1]
                    == Lexeme::Word("for"@)),
                Lexeme::Quoted => true,
            },
    decreases count,
{
    if count > 0 {
        law_accepted_statement_holds_nothing_foreign(t, words, count - 1);
        if foreign_piece(t, words, count) is None {
            assert forall|i: int| 0 <= i < count implies match #[trigger] t[i] {
                Lexeme::Symbol(c) => c != ';',
                Lexeme::Bind(name) => name == words.timestamp_bind || name
                    == words.tie_breaker_bind,
                Lexeme::Word(word) => word != "union"@ && word != "intersect"@ && word != "minus"@
                    && word != "except"@ && !(word == "update"@ && i > 0 && t[i - 1]
                    == Lexeme::Word("for"@)),
                Lexeme::Quoted => true,
            } by {
                if i == count - 1 {
                    assert(t[i] == t[count - 1]);
                }
            }
        }
    }
}

/// The words of a cursor are its configured names in lower case, as words of a statement are.
pub proof fn law_cursor_words_are_the_configured_names(watermark: WatermarkConfig)
    ensures
        text::spells_alike(
            cursor_words(watermark).timestamp,
            polling::timestamp_part(watermark).column@,
        ),
        text::spells_alike(
            cursor_words(watermark).tie_breaker,
            polling::tie_breaker_part(watermark).column@,
        ),
        text::spells_alike(
            cursor_words(watermark).timestamp_bind,
            polling::timestamp_part(watermark).bind@,
        ),
        text::spells_alike(
            cursor_words(watermark).tie_breaker_bind,
            polling::tie_breaker_part(watermark).bind@,
        ),
{
    lemma_lower_spells_alike(polling::timestamp_part(watermark).column@);
    lemma_lower_spells_alike(polling::tie_breaker_part(watermark).column@);
    lemma_lower_spells_alike(polling::timestamp_part(watermark).bind@);
    lemma_lower_spells_alike(polling::tie_breaker_part(watermark).bind@);
}

proof fn lemma_lower_spells_alike(name: Seq<char>)
    ensures
        text::spells_alike(text::lower(name), name),
{
    text::law_lower_case_changes_capitals_alone(name);
}

/// One semicolon at the end of a statement is left out, and nothing else.
pub proof fn law_one_semicolon_may_end_a_statement(t: Seq<Lexeme>)
    ensures
        t.len() > 0 && t[t.len() - 1] == Lexeme::Symbol(';') ==> unended(t) == t.take(t.len() - 1),
        !(t.len() > 0 && t[t.len() - 1] == Lexeme::Symbol(';')) ==> unended(t) == t,
{
    if t.len() > 0 {
        assert(t.drop_last() =~= t.take(t.len() - 1));
    }
}

/// Narrowing keeps a condition accepted: of a run that joins two conditions by AND, with no OR
/// beside it, one that is the cursor's is enough, whatever the other asks.
pub proof fn law_accepted_condition_may_be_narrowed(
    t: Seq<Lexeme>,
    lo: int,
    hi: int,
    cursor: CursorModel,
)
    requires
        !enclosed(t, lo, hi),
        first_word(t, lo, lo, hi, "or"@) >= hi,
        first_and(t, lo, lo, hi, false) < hi,
    ensures
        is_keyset(t, lo, first_and(t, lo, lo, hi, false), cursor) ==> is_keyset(t, lo, hi, cursor),
        is_keyset(t, first_and(t, lo, lo, hi, false) + 1, hi, cursor) ==> is_keyset(
            t,
            lo,
            hi,
            cursor,
        ),
{
}

/// A statement is accepted exactly when it has at most 64 KiB, is read to its end, and what is
/// read, but for one semicolon at its end, can be polled by the cursor.
pub proof fn law_accepted_statements_can_be_polled(statement: Seq<char>, cursor: CursorModel)
    ensures
        statement_failure(statement, cursor) is None <==> text::bytes_in(statement) <= 65_536 && (
        lexer::statement_pieces(statement) matches Some(t) && pieces_failure(unended(t), cursor)
            is None),
{
}

/// An accepted statement is one SELECT with balanced parentheses: it begins with that word.
pub proof fn law_accepted_statement_is_a_select(t: Seq<Lexeme>, words: CursorModel)
    requires
        pieces_failure(t, words) is None,
    ensures
        t.len() > 0,
        t[0] matches Lexeme::Word(word) && word == seq!['s', 'e', 'l', 'e', 'c', 't'],
        is_nested(t),
{
    reveal_strlit("select");
    assert("select"@ =~= seq!['s', 'e', 'l', 'e', 'c', 't']);
}

} // verus!
