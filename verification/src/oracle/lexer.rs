//! The words, binds and symbols of an Oracle statement.

use crate::text;
use crate::text::{alphanumeric, chars_of, lowered, space, text_of};
use vstd::prelude::*;

verus! {

/// One piece of a statement. Letters count the same in either case.
pub enum Token {
    /// A keyword, a name or a number, in lower case.
    Word(String),
    /// A named bind, in lower case and without its colon.
    Bind(String),
    /// A quoted text or a quoted name.
    Quoted,
    /// Any other character.
    Symbol(char),
}

/// A piece of a statement as a mathematical value.
pub enum Lexeme {
    Word(Seq<char>),
    Bind(Seq<char>),
    Quoted,
    Symbol(char),
}

impl View for Token {
    type V = Lexeme;

    open spec fn view(&self) -> Lexeme {
        match self {
            Token::Word(word) => Lexeme::Word(word@),
            Token::Bind(name) => Lexeme::Bind(name@),
            Token::Quoted => Lexeme::Quoted,
            Token::Symbol(c) => Lexeme::Symbol(*c),
        }
    }
}

/// A run of pieces as mathematical values.
pub open spec fn lexemes(tokens: Seq<Token>) -> Seq<Lexeme> {
    tokens.map_values(|token: Token| token@)
}

/// Whether a character is part of a word.
pub open spec fn is_word_char(c: char) -> bool {
    text::is_alphanumeric(c) || c == '_' || c == '$' || c == '#'
}

/// Where the word that starts at `from` ends.
pub open spec fn word_end(text: Seq<char>, from: int) -> int
    decreases text.len() - from,
{
    if 0 <= from < text.len() && is_word_char(text[from]) {
        word_end(text, from + 1)
    } else {
        from
    }
}

/// Where a quotation ends whose content starts at `from`: behind the next quotation mark.
pub open spec fn quote_end(text: Seq<char>, from: int, mark: char) -> Option<int>
    decreases text.len() - from,
{
    if from < 0 || from >= text.len() {
        None
    } else if text[from] == mark {
        Some(from + 1)
    } else {
        quote_end(text, from + 1, mark)
    }
}

/// What stands at a place of a statement, and where it ends. There is nothing to be read
/// where a comment starts, where a quotation does not end, or where a quotation mark follows
/// a word at once: a prefix would change how the quotation is read.
pub open spec fn piece_at(text: Seq<char>, at: int) -> Option<(Option<Lexeme>, int)> {
    let c = text[at];
    let next = if at + 1 < text.len() {
        Some(text[at + 1])
    } else {
        None
    };
    if text::is_space(c) {
        Some((None, at + 1))
    } else if is_word_char(c) {
        let end = word_end(text, at);
        if end < text.len() && text[end] == '\'' {
            None
        } else {
            Some((Some(Lexeme::Word(text::lower(text.subrange(at, end)))), end))
        }
    } else if c == ':' && next is Some && is_word_char(next->0) {
        let end = word_end(text, at + 1);
        Some((Some(Lexeme::Bind(text::lower(text.subrange(at + 1, end)))), end))
    } else if c == '\'' || c == '"' {
        match quote_end(text, at + 1, c) {
            Some(end) => Some((Some(Lexeme::Quoted), end)),
            None => None,
        }
    } else if (c == '-' && next == Some('-')) || (c == '/' && next == Some('*')) {
        None
    } else {
        Some((Some(Lexeme::Symbol(c)), at + 1))
    }
}

/// The pieces of a statement from a place on, if it can be read.
pub open spec fn pieces(text: Seq<char>, at: int) -> Option<Seq<Lexeme>>
    decreases text.len() - at,
{
    if at < 0 || at >= text.len() {
        Some(Seq::empty())
    } else {
        match piece_at(text, at) {
            None => None,
            Some((piece, end)) => if end <= at || end > text.len() {
                None
            } else {
                match pieces(text, end) {
                    None => None,
                    Some(rest) => match piece {
                        Some(lexeme) => Some(seq![lexeme] + rest),
                        None => Some(rest),
                    },
                }
            },
        }
    }
}

proof fn lemma_word_end(text: Seq<char>, from: int, end: int)
    requires
        0 <= from <= end <= text.len(),
        forall|i: int| from <= i < end ==> is_word_char(#[trigger] text[i]),
        end == text.len() || !is_word_char(text[end]),
    ensures
        word_end(text, from) == end,
    decreases end - from,
{
    if from < end {
        lemma_word_end(text, from + 1, end);
    }
}

pub(crate) fn word_char(c: char) -> (found: bool)
    ensures
        found == is_word_char(c),
{
    alphanumeric(c) || c == '_' || c == '$' || c == '#'
}

fn find_word_end(chars: &Vec<char>, from: usize) -> (end: usize)
    requires
        from <= chars@.len(),
    ensures
        from <= end <= chars@.len(),
        end == word_end(chars@, from as int),
        from < chars@.len() && is_word_char(chars@[from as int]) ==> from < end,
{
    let mut end: usize = from;
    while end < chars.len() && word_char(chars[end])
        invariant
            from <= end <= chars@.len(),
            forall|i: int| from <= i < end ==> is_word_char(#[trigger] chars@[i]),
        decreases chars.len() - end,
    {
        end += 1;
    }
    proof {
        lemma_word_end(chars@, from as int, end as int);
    }
    end
}

fn find_quote_end(chars: &Vec<char>, from: usize, mark: char) -> (r: Option<usize>)
    requires
        from <= chars@.len(),
    ensures
        match r {
            Some(end) => from < end <= chars@.len() && quote_end(chars@, from as int, mark)
                == Some(end as int),
            None => quote_end(chars@, from as int, mark) is None,
        },
{
    let mut i: usize = from;
    while i < chars.len()
        invariant
            from <= i <= chars@.len(),
            quote_end(chars@, from as int, mark) == quote_end(chars@, i as int, mark),
        decreases chars.len() - i,
    {
        if chars[i] == mark {
            return Some(i + 1);
        }
        i += 1;
    }
    None
}

fn read_piece(chars: &Vec<char>, at: usize) -> (r: Option<(Option<Token>, usize)>)
    requires
        at < chars@.len(),
    ensures
        match r {
            Some((piece, end)) => {
                &&& at < end <= chars@.len()
                &&& piece_at(chars@, at as int) == Some(
                    (
                        match piece {
                            Some(token) => Some(token@),
                            None => None,
                        },
                        end as int,
                    ),
                )
            },
            None => piece_at(chars@, at as int) is None,
        },
{
    let c: char = chars[at];
    let next: Option<char> = if chars.len() - at > 1 {
        Some(chars[at + 1])
    } else {
        None
    };
    if space(c) {
        return Some((None, at + 1));
    }
    if word_char(c) {
        let end = find_word_end(chars, at);
        if end < chars.len() && chars[end] == '\'' {
            return None;
        }
        let word = lowered(text_of(chars, at, end).as_str());
        return Some((Some(Token::Word(word)), end));
    }
    if c == ':' {
        if let Some(n) = next {
            if word_char(n) {
                let end = find_word_end(chars, at + 1);
                let name = lowered(text_of(chars, at + 1, end).as_str());
                return Some((Some(Token::Bind(name)), end));
            }
        }
    }
    if c == '\'' || c == '"' {
        return match find_quote_end(chars, at + 1, c) {
            Some(end) => Some((Some(Token::Quoted), end)),
            None => None,
        };
    }
    if c == '-' {
        if let Some(n) = next {
            if n == '-' {
                return None;
            }
        }
    }
    if c == '/' {
        if let Some(n) = next {
            if n == '*' {
                return None;
            }
        }
    }
    Some((Some(Token::Symbol(c)), at + 1))
}

/// The pieces of a statement, if it can be read.
pub open spec fn statement_pieces(statement: Seq<char>) -> Option<Seq<Lexeme>> {
    pieces(statement, 0)
}

/// Reads a statement.
pub fn tokenize(statement: &str) -> (r: Option<Vec<Token>>)
    ensures
        match r {
            Some(tokens) => statement_pieces(statement@) == Some(lexemes(tokens@)),
            None => statement_pieces(statement@) is None,
        },
{
    let chars = chars_of(statement);
    let mut tokens: Vec<Token> = Vec::new();
    let mut at: usize = 0;
    assert(lexemes(tokens@) =~= Seq::<Lexeme>::empty());
    proof {
        if let Some(rest) = pieces(chars@, 0) {
            assert(lexemes(tokens@) + rest =~= rest);
        }
    }
    while at < chars.len()
        invariant
            chars@ == statement@,
            at <= chars@.len(),
            pieces(chars@, 0) == match pieces(chars@, at as int) {
                Some(rest) => Some(lexemes(tokens@) + rest),
                None => None,
            },
        decreases chars.len() - at,
    {
        let ghost before = lexemes(tokens@);
        match read_piece(&chars, at) {
            None => {
                return None;
            },
            Some((piece, end)) => {
                match piece {
                    Some(token) => {
                        let ghost lexeme = token@;
                        tokens.push(token);
                        proof {
                            assert(lexemes(tokens@) =~= before.push(lexeme));
                            if let Some(rest) = pieces(chars@, end as int) {
                                assert(before + (seq![lexeme] + rest) =~= lexemes(tokens@) + rest);
                            }
                        }
                    },
                    None => {},
                }
                at = end;
            },
        }
    }
    assert(lexemes(tokens@) + Seq::<Lexeme>::empty() =~= lexemes(tokens@));
    Some(tokens)
}

proof fn lemma_word_is_whole(text: Seq<char>, from: int)
    requires
        0 <= from <= text.len(),
    ensures
        from <= word_end(text, from) <= text.len(),
        forall|i: int| from <= i < word_end(text, from) ==> is_word_char(#[trigger] text[i]),
        word_end(text, from) < text.len() ==> !is_word_char(text[word_end(text, from)]),
    decreases text.len() - from,
{
    if from < text.len() && is_word_char(text[from]) {
        lemma_word_is_whole(text, from + 1);
    }
}

proof fn lemma_quote_is_whole(text: Seq<char>, from: int, mark: char)
    requires
        0 <= from <= text.len(),
    ensures
        quote_end(text, from, mark) matches Some(end) ==> from < end <= text.len() && text[end - 1]
            == mark && (forall|i: int| from <= i < end - 1 ==> #[trigger] text[i] != mark),
        quote_end(text, from, mark) is None ==> forall|i: int|
            from <= i < text.len() ==> #[trigger] text[i] != mark,
    decreases text.len() - from,
{
    if from < text.len() && text[from] != mark {
        lemma_quote_is_whole(text, from + 1, mark);
    }
}

/// Whether a character can be part of a word: an ASCII letter or digit, `_`, `$` or `#`.
pub open spec fn belongs_to_words(c: char) -> bool {
    ||| 'a' <= c <= 'z'
    ||| 'A' <= c <= 'Z'
    ||| '0' <= c <= '9'
    ||| c == '_'
    ||| c == '$'
    ||| c == '#'
}

/// What is read at a place of a statement is what stands there: white space is passed over; a
/// word is read whole and in lower case; a colon and a word are a bind of that name; a
/// quotation runs to the next mark of its kind; and anything else is one character that starts
/// no comment.
pub proof fn law_pieces_are_what_stands_there(text: Seq<char>, at: int)
    requires
        0 <= at < text.len(),
    ensures
        match piece_at(text, at) {
            Some((None, end)) => text::is_space(text[at]) && end == at + 1,
            Some((Some(Lexeme::Word(word)), end)) => {
                &&& at < end <= text.len()
                &&& word.len() == end - at
                &&& forall|i: int| at <= i < end ==> belongs_to_words(#[trigger] text[i])
                &&& end < text.len() ==> !belongs_to_words(text[end]) && text[end] != '\''
                &&& text::spells_alike(word, text.subrange(at, end))
                &&& forall|i: int| 0 <= i < word.len() ==> !('A' <= #[trigger] word[i] <= 'Z')
            },
            Some((Some(Lexeme::Bind(name)), end)) => {
                &&& text[at] == ':'
                &&& at + 1 < end <= text.len()
                &&& name.len() == end - at - 1
                &&& forall|i: int| at + 1 <= i < end ==> belongs_to_words(#[trigger] text[i])
                &&& end < text.len() ==> !belongs_to_words(text[end])
                &&& text::spells_alike(name, text.subrange(at + 1, end))
                &&& forall|i: int| 0 <= i < name.len() ==> !('A' <= #[trigger] name[i] <= 'Z')
            },
            Some((Some(Lexeme::Quoted), end)) => {
                &&& text[at] == '\'' || text[at] == '"'
                &&& at + 1 < end <= text.len()
                &&& text[end - 1] == text[at]
                &&& forall|i: int| at < i < end - 1 ==> #[trigger] text[i] != text[at]
            },
            Some((Some(Lexeme::Symbol(c)), end)) => {
                &&& c == text[at]
                &&& end == at + 1
                &&& !text::is_space(c) && !belongs_to_words(c) && c != '\'' && c != '"'
                &&& end < text.len() ==> !(c == '-' && text[end] == '-') && !(c == '/' && text[end]
                    == '*') && !(c == ':' && belongs_to_words(text[end]))
            },
            None => {
                ||| (text[at] == '\'' || text[at] == '"') && (forall|i: int|
                    at < i < text.len() ==> #[trigger] text[i] != text[at])
                ||| at + 1 < text.len() && text[at] == '-' && text[at + 1] == '-'
                ||| at + 1 < text.len() && text[at] == '/' && text[at + 1] == '*'
                ||| belongs_to_words(text[at]) && exists|end: int|
                    at < end < text.len() && #[trigger] text[end] == '\'' && forall|i: int|
                        at <= i < end ==> belongs_to_words(#[trigger] text[i])
            },
        },
{
    lemma_word_is_whole(text, at);
    lemma_word_is_whole(text, at + 1);
    lemma_quote_is_whole(text, at + 1, text[at]);
    let end = word_end(text, at);
    text::law_lower_case_changes_capitals_alone(text.subrange(at, end));
    if at + 1 < text.len() {
        text::law_lower_case_changes_capitals_alone(
            text.subrange(at + 1, word_end(text, at + 1)),
        );
    }
    assert(forall|i: int|
        at <= i < end && is_word_char(text[i]) ==> belongs_to_words(#[trigger] text[i]));
    assert(forall|i: int|
        at + 1 <= i < word_end(text, at + 1) && is_word_char(text[i]) ==> belongs_to_words(
            #[trigger] text[i],
        ));
    let word = text::lower(text.subrange(at, end));
    assert forall|i: int| 0 <= i < word.len() implies text::is_case_of(
        #[trigger] word[i],
        text.subrange(at, end)[i],
    ) && !('A' <= word[i] <= 'Z') by {
        assert(text.subrange(at, end)[i] == text[at + i]);
    }
    if at + 1 < text.len() {
        let stop = word_end(text, at + 1);
        let name = text::lower(text.subrange(at + 1, stop));
        assert forall|i: int| 0 <= i < name.len() implies text::is_case_of(
            #[trigger] name[i],
            text.subrange(at + 1, stop)[i],
        ) && !('A' <= name[i] <= 'Z') by {
            assert(text.subrange(at + 1, stop)[i] == text[at + 1 + i]);
        }
    }
    if is_word_char(text[at]) {
        assert(end > at) by {
            reveal_with_fuel(word_end, 2);
        }
    }
}

/// A statement is read piece by piece from its beginning: what is read at a place comes first,
/// and then what is read behind it. Nothing is skipped but white space.
pub proof fn law_pieces_follow_each_other(text: Seq<char>, at: int)
    requires
        0 <= at <= text.len(),
    ensures
        at == text.len() ==> pieces(text, at) == Some(Seq::<Lexeme>::empty()),
        at < text.len() ==> match piece_at(text, at) {
            None => pieces(text, at) is None,
            Some((piece, end)) => {
                &&& at < end <= text.len()
                &&& pieces(text, end) is None <==> pieces(text, at) is None
                &&& pieces(text, end) matches Some(rest) ==> pieces(text, at) == Some(
                    match piece {
                        Some(lexeme) => seq![lexeme] + rest,
                        None => rest,
                    },
                )
            },
        },
{
    if at < text.len() {
        law_pieces_are_what_stands_there(text, at);
    }
}

/// A statement is read from its first character on.
pub proof fn law_statements_are_read_from_the_beginning(statement: Seq<char>)
    ensures
        statement_pieces(statement) == pieces(statement, 0),
        statement.len() == 0 ==> statement_pieces(statement) == Some(Seq::<Lexeme>::empty()),
{
}

} // verus!
