//! Text rules shared by configuration, SQL and metadata validation.
//!
//! Text is reasoned about as a sequence of characters. Everything here is
//! written over that view, so a rule about a `String` is a rule about a `Seq<char>`.

use vstd::prelude::*;

verus! {

/// `String::push`: appends one character.
pub assume_specification[ std::string::String::push ](s: &mut std::string::String, c: char)
    ensures
        final(s)@ == old(s)@.push(c),
;

/// The Unicode `White_Space` property, the set that trimming and word splitting go by.
pub open spec fn is_space(c: char) -> bool {
    let n = c as u32;
    ||| 0x9 <= n <= 0xd
    ||| n == 0x20
    ||| n == 0x85
    ||| n == 0xa0
    ||| n == 0x1680
    ||| 0x2000 <= n <= 0x200a
    ||| n == 0x2028
    ||| n == 0x2029
    ||| n == 0x202f
    ||| n == 0x205f
    ||| n == 0x3000
}

/// ASCII lower case of one character; other characters are kept.
pub open spec fn lower_char(c: char) -> char {
    if 'A' <= c <= 'Z' {
        ((c as u32) + 32) as char
    } else {
        c
    }
}

/// ASCII lower case of a text.
pub open spec fn lower(text: Seq<char>) -> Seq<char> {
    text.map_values(|c: char| lower_char(c))
}

/// Equality that ignores ASCII case.
pub open spec fn same_ignoring_case(a: Seq<char>, b: Seq<char>) -> bool {
    lower(a) == lower(b)
}

/// ASCII letters and digits.
pub open spec fn is_alphanumeric(c: char) -> bool {
    is_alphabetic(c) || is_digit(c)
}

/// ASCII letters.
pub open spec fn is_alphabetic(c: char) -> bool {
    'a' <= c <= 'z' || 'A' <= c <= 'Z'
}

/// ASCII digits.
pub open spec fn is_digit(c: char) -> bool {
    '0' <= c <= '9'
}

/// The text without its leading white space.
pub open spec fn trim_start(text: Seq<char>) -> Seq<char>
    decreases text.len(),
{
    if text.len() > 0 && is_space(text[0]) {
        trim_start(text.drop_first())
    } else {
        text
    }
}

/// The text without its trailing white space.
pub open spec fn trim_end(text: Seq<char>) -> Seq<char>
    decreases text.len(),
{
    if text.len() > 0 && is_space(text.last()) {
        trim_end(text.drop_last())
    } else {
        text
    }
}

/// The text without its surrounding white space.
pub open spec fn trim(text: Seq<char>) -> Seq<char> {
    trim_end(trim_start(text))
}

/// Whether a text holds nothing but white space.
pub open spec fn is_blank(text: Seq<char>) -> bool {
    forall|i: int| 0 <= i < text.len() ==> is_space(#[trigger] text[i])
}

/// The leading characters up to the first white space.
pub open spec fn take_word(text: Seq<char>) -> Seq<char>
    decreases text.len(),
{
    if text.len() > 0 && !is_space(text[0]) {
        seq![text[0]] + take_word(text.drop_first())
    } else {
        Seq::empty()
    }
}

/// The first word of a text, if it is not blank.
pub open spec fn first_word(text: Seq<char>) -> Option<Seq<char>> {
    let word = take_word(trim_start(text));
    if word.len() == 0 {
        None
    } else {
        Some(word)
    }
}

/// Whether `part` stands in `text` at position `at`.
pub open spec fn occurs_at(text: Seq<char>, part: Seq<char>, at: int) -> bool {
    &&& 0 <= at
    &&& at + part.len() <= text.len()
    &&& text.subrange(at, at + part.len()) == part
}

/// Whether `part` stands anywhere in `text`.
pub open spec fn occurs(text: Seq<char>, part: Seq<char>) -> bool {
    exists|at: int| #[trigger] occurs_at(text, part, at)
}

/// Whether `text` begins with `part`.
pub open spec fn begins_with(text: Seq<char>, part: Seq<char>) -> bool {
    occurs_at(text, part, 0)
}

/// Trimming leaves nothing exactly when the text is blank.
pub proof fn lemma_trim_blank(text: Seq<char>)
    ensures
        trim(text).len() == 0 <==> is_blank(text),
{
    lemma_trim_start_blank(text);
    lemma_trim_end_keeps(trim_start(text));
}

proof fn lemma_trim_start_blank(text: Seq<char>)
    ensures
        trim_start(text).len() == 0 <==> is_blank(text),
        trim_start(text).len() > 0 ==> !is_space(trim_start(text)[0]),
    decreases text.len(),
{
    if text.len() > 0 && is_space(text[0]) {
        let rest = text.drop_first();
        lemma_trim_start_blank(rest);
        if is_blank(rest) {
            assert forall|i: int| 0 <= i < text.len() implies is_space(#[trigger] text[i]) by {
                if i > 0 {
                    assert(rest[i - 1] == text[i]);
                }
            }
        }
        if is_blank(text) {
            assert forall|i: int| 0 <= i < rest.len() implies is_space(#[trigger] rest[i]) by {
                assert(rest[i] == text[i + 1]);
            }
        }
    }
}

proof fn lemma_trim_end_keeps(text: Seq<char>)
    ensures
        text.len() > 0 && !is_space(text[0]) ==> trim_end(text).len() > 0,
        text.len() == 0 ==> trim_end(text).len() == 0,
    decreases text.len(),
{
    if text.len() > 0 && is_space(text.last()) {
        lemma_trim_end_keeps(text.drop_last());
    }
}

/// The characters of a text, one by one.
pub fn chars_of(text: &str) -> (chars: Vec<char>)
    ensures
        chars@ == text@,
{
    let mut chars: Vec<char> = Vec::new();
    for c in it: text.chars()
        invariant
            it.seq() == text@,
            chars@ == text@.take(it.index()),
    {
        assert(text@.take(it.index() + 1) == text@.take(it.index()).push(c));
        chars.push(c);
    }
    assert(text@.take(text@.len() as int) == text@);
    chars
}

/// The text made of `chars[from..to]`.
pub fn text_of(chars: &Vec<char>, from: usize, to: usize) -> (text: String)
    requires
        from <= to <= chars@.len(),
    ensures
        text@ == chars@.subrange(from as int, to as int),
{
    let mut text = String::new();
    let mut i: usize = from;
    while i < to
        invariant
            from <= i <= to <= chars@.len(),
            text@ == chars@.subrange(from as int, i as int),
        decreases to - i,
    {
        text.push(chars[i]);
        i += 1;
        assert(chars@.subrange(from as int, i as int) == chars@.subrange(
            from as int,
            i - 1,
        ).push(chars@[i - 1]));
    }
    text
}

/// Whether a character is Unicode white space.
pub fn space(c: char) -> (found: bool)
    ensures
        found == is_space(c),
{
    let n: u32 = c as u32;
    (0x9 <= n && n <= 0xd) || n == 0x20 || n == 0x85 || n == 0xa0 || n == 0x1680 || (0x2000 <= n
        && n <= 0x200a) || n == 0x2028 || n == 0x2029 || n == 0x202f || n == 0x205f || n == 0x3000
}

/// ASCII letters and digits.
pub fn alphanumeric(c: char) -> (found: bool)
    ensures
        found == is_alphanumeric(c),
{
    alphabetic(c) || digit(c)
}

/// ASCII letters.
pub fn alphabetic(c: char) -> (found: bool)
    ensures
        found == is_alphabetic(c),
{
    ('a' <= c && c <= 'z') || ('A' <= c && c <= 'Z')
}

/// ASCII digits.
pub fn digit(c: char) -> (found: bool)
    ensures
        found == is_digit(c),
{
    '0' <= c && c <= '9'
}

/// ASCII lower case of one character.
pub fn lowered_char(c: char) -> (r: char)
    ensures
        r == lower_char(c),
{
    if 'A' <= c && c <= 'Z' {
        let byte: u8 = c as u8;
        (byte + 32) as char
    } else {
        c
    }
}

/// ASCII lower case of a text.
pub fn lowered(text: &str) -> (r: String)
    ensures
        r@ == lower(text@),
{
    let chars = chars_of(text);
    let mut r = String::new();
    let mut i: usize = 0;
    while i < chars.len()
        invariant
            i <= chars@.len(),
            chars@ == text@,
            r@ == lower(text@.take(i as int)),
        decreases chars.len() - i,
    {
        r.push(lowered_char(chars[i]));
        assert(lower(text@.take(i + 1)) == lower(text@.take(i as int)).push(lower_char(text@[i as int])));
        i += 1;
    }
    assert(text@.take(text@.len() as int) == text@);
    r
}

/// Whether two texts are the same.
pub fn same(a: &str, b: &str) -> (found: bool)
    ensures
        found == (a@ == b@),
{
    let left = chars_of(a);
    let right = chars_of(b);
    if left.len() != right.len() {
        return false;
    }
    let mut i: usize = 0;
    while i < left.len()
        invariant
            i <= left@.len(),
            left@.len() == right@.len(),
            left@ == a@,
            right@ == b@,
            forall|j: int| 0 <= j < i ==> left@[j] == right@[j],
        decreases left.len() - i,
    {
        if left[i] != right[i] {
            return false;
        }
        i += 1;
    }
    assert(a@ =~= b@);
    true
}

/// Whether two texts are the same but for ASCII case.
pub fn same_but_case(a: &str, b: &str) -> (found: bool)
    ensures
        found == same_ignoring_case(a@, b@),
{
    let left = lowered(a);
    let right = lowered(b);
    same(left.as_str(), right.as_str())
}

/// Whether a text holds nothing but white space.
pub fn blank(text: &str) -> (found: bool)
    ensures
        found == is_blank(text@),
        found == (trim(text@).len() == 0),
{
    proof {
        lemma_trim_blank(text@);
    }
    let chars = chars_of(text);
    let mut i: usize = 0;
    while i < chars.len()
        invariant
            i <= chars@.len(),
            chars@ == text@,
            forall|j: int| 0 <= j < i ==> is_space(#[trigger] text@[j]),
            trim(text@).len() == 0 <==> is_blank(text@),
        decreases chars.len() - i,
    {
        if !space(chars[i]) {
            return false;
        }
        i += 1;
    }
    true
}

/// How many leading characters are white space.
fn leading_space(chars: &Vec<char>) -> (n: usize)
    ensures
        n <= chars@.len(),
        trim_start(chars@) == chars@.skip(n as int),
{
    let mut n: usize = 0;
    assert(chars@.skip(0) == chars@);
    while n < chars.len() && space(chars[n])
        invariant
            n <= chars@.len(),
            trim_start(chars@) == trim_start(chars@.skip(n as int)),
        decreases chars.len() - n,
    {
        assert(chars@.skip(n as int).drop_first() == chars@.skip(n + 1));
        n += 1;
    }
    n
}

/// The text without its leading white space.
pub fn trimmed_start(text: &str) -> (r: String)
    ensures
        r@ == trim_start(text@),
{
    let chars = chars_of(text);
    let from: usize = leading_space(&chars);
    assert(chars@.skip(from as int) == chars@.subrange(from as int, chars@.len() as int));
    text_of(&chars, from, chars.len())
}

/// The text without its surrounding white space.
pub fn trimmed(text: &str) -> (r: String)
    ensures
        r@ == trim(text@),
{
    let chars = chars_of(text);
    let from: usize = leading_space(&chars);
    let mut to: usize = chars.len();
    assert(chars@.skip(from as int) == chars@.subrange(from as int, to as int));
    while from < to && space(chars[to - 1])
        invariant
            from <= to <= chars@.len(),
            trim(text@) == trim_end(chars@.subrange(from as int, to as int)),
        decreases to,
    {
        assert(chars@.subrange(from as int, to as int).drop_last() == chars@.subrange(
            from as int,
            to - 1,
        ));
        to -= 1;
    }
    text_of(&chars, from, to)
}

/// The first word of a text, if it is not blank.
pub fn leading_word(text: &str) -> (r: Option<String>)
    ensures
        r matches Some(word) ==> first_word(text@) == Some(word@),
        r is None ==> first_word(text@) is None,
{
    let chars = chars_of(text);
    let from: usize = leading_space(&chars);
    let mut to: usize = from;
    let ghost rest = chars@.skip(from as int);
    assert(chars@.subrange(from as int, to as int) + take_word(chars@.skip(to as int)) == take_word(
        rest,
    ));
    while to < chars.len() && !space(chars[to])
        invariant
            from <= to <= chars@.len(),
            chars@.subrange(from as int, to as int) + take_word(chars@.skip(to as int))
                == take_word(rest),
        decreases chars.len() - to,
    {
        let ghost here = chars@.skip(to as int);
        assert(here.drop_first() == chars@.skip(to + 1));
        assert(chars@.subrange(from as int, to + 1) == chars@.subrange(from as int, to as int)
            + seq![here[0]]);
        assert(chars@.subrange(from as int, to as int) + (seq![here[0]] + take_word(
            here.drop_first(),
        )) == (chars@.subrange(from as int, to as int) + seq![here[0]]) + take_word(
            here.drop_first(),
        ));
        to += 1;
    }
    assert(take_word(chars@.skip(to as int)) == Seq::<char>::empty());
    assert(chars@.subrange(from as int, to as int) == take_word(rest));
    if from == to {
        None
    } else {
        Some(text_of(&chars, from, to))
    }
}

/// Whether `part` stands in `text` at position `at`.
fn stands_at(text: &Vec<char>, part: &Vec<char>, at: usize) -> (found: bool)
    ensures
        found == occurs_at(text@, part@, at as int),
{
    if part.len() > text.len() || at > text.len() - part.len() {
        return false;
    }
    assert(text.len() <= usize::MAX);
    let mut i: usize = 0;
    while i < part.len()
        invariant
            i <= part@.len(),
            at + part@.len() <= text@.len(),
            text@.len() <= usize::MAX,
            forall|j: int| 0 <= j < i ==> text@[at + j] == part@[j],
        decreases part.len() - i,
    {
        if text[at + i] != part[i] {
            assert(text@.subrange(at as int, at + part@.len())[i as int] != part@[i as int]);
            return false;
        }
        i += 1;
    }
    assert(text@.subrange(at as int, at + part@.len()) =~= part@);
    true
}

/// Whether `part` stands anywhere in `text`.
pub fn contains(text: &str, part: &str) -> (found: bool)
    ensures
        found == occurs(text@, part@),
{
    let whole = chars_of(text);
    let piece = chars_of(part);
    let mut at: usize = 0;
    while at <= whole.len()
        invariant
            at <= whole@.len() + 1,
            whole@ == text@,
            piece@ == part@,
            forall|j: int| 0 <= j < at ==> !#[trigger] occurs_at(text@, part@, j),
        decreases whole.len() + 1 - at,
    {
        if stands_at(&whole, &piece, at) {
            assert(occurs_at(text@, part@, at as int));
            return true;
        }
        if at == whole.len() {
            assert(!occurs(text@, part@));
            return false;
        }
        at += 1;
    }
    false
}

/// Whether `text` begins with `part`.
pub fn begins(text: &str, part: &str) -> (found: bool)
    ensures
        found == begins_with(text@, part@),
{
    let whole = chars_of(text);
    let piece = chars_of(part);
    stands_at(&whole, &piece, 0)
}

/// Whether a character stands anywhere in `text`.
pub fn contains_char(text: &str, c: char) -> (found: bool)
    ensures
        found == text@.contains(c),
{
    let chars = chars_of(text);
    let mut i: usize = 0;
    while i < chars.len()
        invariant
            i <= chars@.len(),
            chars@ == text@,
            forall|j: int| 0 <= j < i ==> text@[j] != c,
        decreases chars.len() - i,
    {
        if chars[i] == c {
            return true;
        }
        i += 1;
    }
    false
}

/// The decimal digit `d`, for `d` below ten.
pub open spec fn digit_char(d: int) -> char {
    (48 + d) as char
}

/// A natural number in decimal, without leading zeros.
pub open spec fn decimal(n: nat) -> Seq<char>
    decreases n,
{
    if n < 10 {
        seq![digit_char(n as int)]
    } else {
        decimal(n / 10).push(digit_char((n % 10) as int))
    }
}

/// An integer in decimal, with a sign when it is negative.
pub open spec fn signed_decimal(n: int) -> Seq<char> {
    if n < 0 {
        seq!['-'] + decimal((-n) as nat)
    } else {
        decimal(n as nat)
    }
}

/// The `width` lowest decimal digits of a number, leading zeros included.
pub open spec fn low_digits(n: nat, width: nat) -> Seq<char>
    decreases width,
{
    if width == 0 {
        Seq::empty()
    } else {
        low_digits(n / 10, (width - 1) as nat).push(digit_char((n % 10) as int))
    }
}

/// A natural number in decimal, filled with leading zeros up to `width`.
pub open spec fn padded(n: nat, width: nat) -> Seq<char> {
    if decimal(n).len() < width {
        low_digits(n, width)
    } else {
        decimal(n)
    }
}

/// Appends a text.
pub fn append_text(out: &mut String, text: &str)
    ensures
        final(out)@ == old(out)@ + text@,
{
    out.append(text);
}

fn decimal_digit(d: u64) -> (c: char)
    requires
        d < 10,
    ensures
        c == digit_char(d as int),
{
    let byte: u8 = 48 + d as u8;
    byte as char
}

/// Appends a number in decimal.
pub fn append_decimal(out: &mut String, n: u64)
    ensures
        final(out)@ == old(out)@ + decimal(n as nat),
{
    append_long_decimal(out, n as u128);
}

/// Appends a long number in decimal.
pub fn append_long_decimal(out: &mut String, n: u128)
    ensures
        final(out)@ == old(out)@ + decimal(n as nat),
    decreases n,
{
    let ghost before = out@;
    if n >= 10 {
        append_long_decimal(out, n / 10);
    }
    out.push(decimal_digit((n % 10) as u64));
    assert(out@ =~= before + decimal(n as nat));
}

/// Appends the `width` lowest decimal digits of a number.
pub fn append_low_digits(out: &mut String, n: u64, width: usize)
    ensures
        final(out)@ == old(out)@ + low_digits(n as nat, width as nat),
    decreases width,
{
    let ghost before = out@;
    if width > 0 {
        append_low_digits(out, n / 10, width - 1);
        out.push(decimal_digit(n % 10));
    }
    assert(out@ =~= before + low_digits(n as nat, width as nat));
}

/// How many decimal digits a number has.
fn decimal_len(n: u64) -> (len: usize)
    ensures
        len == decimal(n as nat).len(),
        len <= 20,
{
    proof {
        lemma_decimal_len(n as nat);
    }
    let mut len: usize = 1;
    let mut rest: u64 = n;
    while rest >= 10
        invariant
            1 <= len,
            len + decimal(rest as nat).len() == 1 + decimal(n as nat).len(),
            decimal(n as nat).len() <= 20,
        decreases rest,
    {
        assert(decimal(rest as nat).len() == 1 + decimal((rest / 10) as nat).len());
        assert(decimal((rest / 10) as nat).len() >= 1);
        rest = rest / 10;
        len += 1;
    }
    len
}

proof fn lemma_decimal_len(n: nat)
    requires
        n <= u64::MAX,
    ensures
        1 <= decimal(n).len() <= 20,
{
    reveal_with_fuel(decimal, 21);
}

/// Appends a number in decimal, filled with leading zeros up to `width`.
pub fn append_padded(out: &mut String, n: u64, width: usize)
    ensures
        final(out)@ == old(out)@ + padded(n as nat, width as nat),
{
    if decimal_len(n) < width {
        append_low_digits(out, n, width);
    } else {
        append_decimal(out, n);
    }
}

/// Appends an integer in decimal.
pub fn append_signed(out: &mut String, n: i64)
    ensures
        final(out)@ == old(out)@ + signed_decimal(n as int),
{
    let ghost before = out@;
    if n < 0 {
        out.push('-');
        let positive: u64 = if n == i64::MIN {
            0x8000_0000_0000_0000
        } else {
            (-n) as u64
        };
        append_decimal(out, positive);
        assert(out@ =~= before + signed_decimal(n as int));
    } else {
        append_decimal(out, n as u64);
    }
}

/// How many bytes a text takes in UTF-8.
pub open spec fn bytes_in(text: Seq<char>) -> nat {
    vstd::utf8::encode_utf8(text).len()
}

/// How many bytes a text takes in UTF-8.
pub fn byte_len(text: &str) -> (n: usize)
    ensures
        n == bytes_in(text@),
{
    text.as_bytes().len()
}

/// Owned copy of a text.
pub fn owned(text: &str) -> (r: String)
    ensures
        r@ == text@,
{
    text.to_owned()
}

/// A name as uniqueness is judged: trimmed, in lower case.
pub open spec fn normal_name(name: Seq<char>) -> Seq<char> {
    lower(trim(name))
}

/// A name as uniqueness is judged: trimmed, in lower case.
pub fn normalized(name: &str) -> (r: String)
    ensures
        r@ == normal_name(name@),
        is_blank(name@) <==> r@.len() == 0,
{
    proof {
        lemma_trim_blank(name@);
    }
    let short = trimmed(name);
    lowered(short.as_str())
}

/// Whether one of the texts is `wanted`.
pub open spec fn among(texts: Seq<String>, wanted: Seq<char>) -> bool {
    exists|i: int| 0 <= i < texts.len() && (#[trigger] texts[i])@ == wanted
}

/// Whether one of the texts is `wanted`.
pub fn is_among(texts: &Vec<String>, wanted: &str) -> (found: bool)
    ensures
        found == among(texts@, wanted@),
{
    let mut i: usize = 0;
    while i < texts.len()
        invariant
            i <= texts@.len(),
            forall|j: int| 0 <= j < i ==> (#[trigger] texts@[j])@ != wanted@,
        decreases texts.len() - i,
    {
        if same(texts[i].as_str(), wanted) {
            assert(texts@[i as int]@ == wanted@);
            return true;
        }
        i += 1;
    }
    false
}

/// Whether a validation came out as its rules say: `None` when all hold, else the
/// message of the first that does not.
pub open spec fn agrees(result: Result<(), String>, verdict: Option<Seq<char>>) -> bool {
    match result {
        Ok(()) => verdict is None,
        Err(message) => verdict == Some(message@),
    }
}

/// Joins three texts.
pub fn joined(a: &str, b: &str, c: &str) -> (r: String)
    ensures
        r@ == a@ + b@ + c@,
{
    let mut r = owned(a);
    append_text(&mut r, b);
    append_text(&mut r, c);
    r
}

/// Whether two characters differ in nothing but ASCII case: they are the same, or the
/// capital and the small form of one of the twenty-six letters.
pub open spec fn is_case_of(a: char, b: char) -> bool {
    ||| a == b
    ||| ('A' <= a <= 'Z' && b as int == a as int + 32)
    ||| ('A' <= b <= 'Z' && a as int == b as int + 32)
}

/// Whether two texts are as long and differ in no character by more than its case.
pub open spec fn spells_alike(a: Seq<char>, b: Seq<char>) -> bool {
    a.len() == b.len() && forall|i: int| 0 <= i < a.len() ==> is_case_of(#[trigger] a[i], b[i])
}

/// Lower case keeps every character in its place, turns each ASCII capital into its small
/// letter and leaves everything else as it is.
pub proof fn law_lower_case_changes_capitals_alone(text: Seq<char>)
    ensures
        lower(text).len() == text.len(),
        forall|i: int|
            0 <= i < text.len() ==> {
                &&& 'A' <= #[trigger] text[i] <= 'Z' ==> lower(text)[i] as int == text[i] as int + 32
                &&& !('A' <= text[i] <= 'Z') ==> lower(text)[i] == text[i]
            },
{
    assert forall|i: int| 0 <= i < text.len() implies {
        &&& 'A' <= #[trigger] text[i] <= 'Z' ==> lower(text)[i] as int == text[i] as int + 32
        &&& !('A' <= text[i] <= 'Z') ==> lower(text)[i] == text[i]
    } by {
        assert(lower(text)[i] == lower_char(text[i]));
    }
}

/// Two texts are the same but for case exactly when they are as long and differ in no
/// character by more than its case.
pub proof fn law_case_is_all_that_is_ignored(a: Seq<char>, b: Seq<char>)
    ensures
        same_ignoring_case(a, b) <==> spells_alike(a, b),
{
    law_lower_case_changes_capitals_alone(a);
    law_lower_case_changes_capitals_alone(b);
    if spells_alike(a, b) {
        assert forall|i: int| 0 <= i < a.len() implies lower(a)[i] == lower(b)[i] by {
            assert(is_case_of(a[i], b[i]));
            assert(lower(b)[i] == lower_char(b[i]));
        }
        assert(lower(a) =~= lower(b));
    }
    if same_ignoring_case(a, b) {
        assert forall|i: int| 0 <= i < a.len() implies is_case_of(#[trigger] a[i], b[i]) by {
            assert(lower(a)[i] == lower(b)[i]);
            assert(lower(b)[i] == lower_char(b[i]));
        }
    }
}

/// Trimming takes white space from the two ends and nothing else: what it leaves stands in
/// the text between runs of white space, and neither begins nor ends with any.
pub proof fn law_trim_takes_white_space_alone(text: Seq<char>)
    ensures
        exists|from: int, to: int|
            0 <= from <= to <= text.len() && #[trigger] text.subrange(from, to) == trim(text) && (
            forall|i: int| 0 <= i < from || to <= i < text.len() ==> is_space(#[trigger] text[i])),
        trim(text).len() > 0 ==> !is_space(trim(text)[0]) && !is_space(trim(text).last()),
{
    let from = lemma_trim_start_is_a_tail(text);
    let rest = trim_start(text);
    let to = lemma_trim_end_is_a_head(rest);
    lemma_trim_start_blank(text);
    assert(text.subrange(from, from + to) =~= trim(text));
    assert forall|i: int| 0 <= i < from || from + to <= i < text.len() implies is_space(
        #[trigger] text[i],
    ) by {
        if from + to <= i {
            assert(rest[i - from] == text[i]);
        }
    }
    if trim(text).len() > 0 {
        assert(trim(text)[0] == rest[0]);
    }
}

proof fn lemma_trim_start_is_a_tail(text: Seq<char>) -> (from: int)
    ensures
        0 <= from <= text.len(),
        trim_start(text) == text.skip(from),
        forall|i: int| 0 <= i < from ==> is_space(#[trigger] text[i]),
    decreases text.len(),
{
    if text.len() > 0 && is_space(text[0]) {
        let rest = text.drop_first();
        let from = lemma_trim_start_is_a_tail(rest);
        assert(rest.skip(from) =~= text.skip(from + 1));
        assert forall|i: int| 0 <= i < from + 1 implies is_space(#[trigger] text[i]) by {
            if i > 0 {
                assert(rest[i - 1] == text[i]);
            }
        }
        from + 1
    } else {
        assert(text.skip(0) =~= text);
        0
    }
}

proof fn lemma_trim_end_is_a_head(text: Seq<char>) -> (to: int)
    ensures
        0 <= to <= text.len(),
        trim_end(text) == text.take(to),
        forall|i: int| to <= i < text.len() ==> is_space(#[trigger] text[i]),
        to > 0 ==> !is_space(text[to - 1]),
    decreases text.len(),
{
    if text.len() > 0 && is_space(text.last()) {
        let rest = text.drop_last();
        let to = lemma_trim_end_is_a_head(rest);
        assert(rest.take(to) =~= text.take(to));
        assert forall|i: int| to <= i < text.len() implies is_space(#[trigger] text[i]) by {
            if i < text.len() - 1 {
                assert(rest[i] == text[i]);
            }
        }
        to
    } else {
        assert(text.take(text.len() as int) =~= text);
        text.len() as int
    }
}

/// The first word of a text is its first run of other characters than white space, whole:
/// only white space stands before it, none in it, and white space or the end after it. A
/// text has none exactly when it is all white space.
pub proof fn law_first_word_is_the_first_run(text: Seq<char>)
    ensures
        first_word(text) is None <==> (forall|i: int|
            0 <= i < text.len() ==> is_space(#[trigger] text[i])),
        first_word(text) matches Some(word) ==> word.len() > 0 && exists|from: int, to: int|
            0 <= from < to <= text.len() && #[trigger] text.subrange(from, to) == word && (
            forall|i: int| 0 <= i < from ==> is_space(#[trigger] text[i])) && (forall|i: int|
                from <= i < to ==> !is_space(#[trigger] text[i])) && (to == text.len() || is_space(
                text[to],
            )),
{
    let from = lemma_trim_start_is_a_tail(text);
    let rest = trim_start(text);
    lemma_trim_start_blank(text);
    lemma_take_word(rest);
    let word = take_word(rest);
    if word.len() > 0 {
        let to = from + word.len();
        assert(text.subrange(from, to) =~= word);
        assert forall|i: int| from <= i < to implies !is_space(#[trigger] text[i]) by {
            assert(word[i - from] == text[i]);
        }
        if to < text.len() {
            assert(rest[word.len() as int] == text[to]);
        }
        assert(!is_space(text[from]));
    } else {
        assert(rest.len() == 0);
    }
}

proof fn lemma_take_word(text: Seq<char>)
    ensures
        take_word(text).len() <= text.len(),
        take_word(text) == text.take(take_word(text).len() as int),
        forall|i: int| 0 <= i < take_word(text).len() ==> !is_space(#[trigger] take_word(text)[i]),
        take_word(text).len() < text.len() ==> is_space(text[take_word(text).len() as int]),
    decreases text.len(),
{
    if text.len() > 0 && !is_space(text[0]) {
        let rest = text.drop_first();
        lemma_take_word(rest);
        let word = take_word(text);
        assert(word =~= text.take(word.len() as int));
        assert forall|i: int| 0 <= i < word.len() implies !is_space(#[trigger] word[i]) by {
            if i > 0 {
                assert(word[i] == take_word(rest)[i - 1]);
            }
        }
        if word.len() < text.len() {
            assert(rest[word.len() - 1] == text[word.len() as int]);
        }
    } else {
        assert(text.take(0) =~= Seq::empty());
    }
}

/// Trimming a text with white space around something that neither begins nor ends with any
/// leaves that something.
pub proof fn lemma_trim_core(before: Seq<char>, core: Seq<char>, after: Seq<char>)
    requires
        is_blank(before),
        is_blank(after),
        core.len() > 0,
        !is_space(core[0]),
        !is_space(core.last()),
    ensures
        trim(before + core + after) == core,
{
    assert(before + core + after =~= before + (core + after));
    assert((core + after)[0] == core[0]);
    lemma_trim_start_core(before, core + after);
    lemma_trim_end_core(core, after);
}

/// Leading white space before something that does not begin with any is what trimming at the
/// start takes away.
pub proof fn lemma_trim_start_core(before: Seq<char>, core: Seq<char>)
    requires
        is_blank(before),
        core.len() > 0,
        !is_space(core[0]),
    ensures
        trim_start(before + core) == core,
    decreases before.len(),
{
    if before.len() == 0 {
        assert(before + core =~= core);
    } else {
        let rest = before.drop_first();
        assert forall|i: int| 0 <= i < rest.len() implies is_space(#[trigger] rest[i]) by {
            assert(rest[i] == before[i + 1]);
        }
        assert((before + core)[0] == before[0]);
        assert((before + core).drop_first() =~= rest + core);
        lemma_trim_start_core(rest, core);
    }
}

proof fn lemma_trim_end_core(core: Seq<char>, after: Seq<char>)
    requires
        is_blank(after),
        core.len() > 0,
        !is_space(core.last()),
    ensures
        trim_end(core + after) == core,
    decreases after.len(),
{
    if after.len() == 0 {
        assert(core + after =~= core);
    } else {
        let rest = after.drop_last();
        assert forall|i: int| 0 <= i < rest.len() implies is_space(#[trigger] rest[i]) by {
            assert(rest[i] == after[i]);
        }
        assert((core + after).last() == after[after.len() - 1]);
        assert((core + after).drop_last() =~= core + rest);
        lemma_trim_end_core(core, rest);
    }
}

/// The number that a run of decimal digits stands for: each digit counts ten times the one
/// after it.
pub open spec fn value_of(digits: Seq<char>) -> int
    decreases digits.len(),
{
    if digits.len() == 0 {
        0
    } else {
        10 * value_of(digits.drop_last()) + (digits.last() as int - '0' as int)
    }
}

/// Whether a text is made of ASCII digits.
pub open spec fn all_digits(text: Seq<char>) -> bool {
    forall|i: int| 0 <= i < text.len() ==> '0' <= #[trigger] text[i] <= '9'
}

/// A number in decimal is made of digits, stands for that number, and begins with a zero only
/// where it is zero.
pub proof fn law_decimal_stands_for_its_number(n: nat)
    ensures
        decimal(n).len() > 0,
        all_digits(decimal(n)),
        value_of(decimal(n)) == n,
        decimal(n)[0] == '0' ==> n == 0 && decimal(n).len() == 1,
    decreases n,
{
    reveal_with_fuel(value_of, 2);
    if n < 10 {
        assert(decimal(n).drop_last() =~= Seq::empty());
        assert(decimal(n).last() as int == 48 + n);
    } else {
        law_decimal_stands_for_its_number(n / 10);
        let short = decimal(n / 10);
        assert(decimal(n).drop_last() =~= short);
        assert(decimal(n).last() as int == 48 + n % 10);
        assert forall|i: int| 0 <= i < decimal(n).len() implies '0' <= #[trigger] decimal(n)[i]
            <= '9' by {
            if i < short.len() {
                assert(decimal(n)[i] == short[i]);
            }
        }
        assert(decimal(n)[0] == short[0]);
    }
}

/// An integer in decimal has a minus sign exactly when it is negative, and stands for the
/// integer's distance from zero.
pub proof fn law_signed_decimal_stands_for_its_number(n: int)
    ensures
        n < 0 ==> signed_decimal(n).len() > 1 && signed_decimal(n)[0] == '-' && all_digits(
            signed_decimal(n).skip(1),
        ) && value_of(signed_decimal(n).skip(1)) == -n,
        n >= 0 ==> all_digits(signed_decimal(n)) && value_of(signed_decimal(n)) == n,
{
    if n < 0 {
        law_decimal_stands_for_its_number((-n) as nat);
        assert(signed_decimal(n).skip(1) =~= decimal((-n) as nat));
    } else {
        law_decimal_stands_for_its_number(n as nat);
    }
}

/// The lowest digits of a number are as many as asked for, and stand for the number where it
/// is short enough.
pub proof fn law_low_digits_stand_for_the_low_part(n: nat, width: nat)
    ensures
        low_digits(n, width).len() == width,
        all_digits(low_digits(n, width)),
        value_of(low_digits(n, width)) == n as int % vstd::arithmetic::power::pow(10, width),
    decreases width,
{
    vstd::arithmetic::power::lemma_pow_positive(10, width);
    if width == 0 {
        vstd::arithmetic::power::lemma_pow0(10);
    } else {
        let less = (width - 1) as nat;
        law_low_digits_stand_for_the_low_part(n / 10, less);
        vstd::arithmetic::power::lemma_pow_positive(10, less);
        reveal(vstd::arithmetic::power::pow);
        let short = low_digits(n / 10, less);
        let digits = low_digits(n, width);
        assert(digits.drop_last() =~= short);
        assert(digits.last() as int == 48 + n % 10);
        assert forall|i: int| 0 <= i < digits.len() implies '0' <= #[trigger] digits[i] <= '9' by {
            if i < short.len() {
                assert(digits[i] == short[i]);
            }
        }
        let power = vstd::arithmetic::power::pow(10, less);
        let high = (n / 10) as int;
        vstd::arithmetic::div_mod::lemma_breakdown(n as int, 10, power);
        assert(vstd::arithmetic::power::pow(10, width) == 10 * power);
    }
}

/// A padded number is made of digits, stands for the number, and is as wide as asked for, or
/// wider only where the number has more digits and no zero before them.
pub proof fn law_padded_stands_for_its_number(n: nat, width: nat)
    ensures
        padded(n, width).len() >= width,
        all_digits(padded(n, width)),
        value_of(padded(n, width)) == n,
        padded(n, width).len() > width && width > 0 ==> padded(n, width)[0] != '0',
        n < vstd::arithmetic::power::pow(10, width) && width > 0 ==> padded(n, width).len() == width,
{
    law_decimal_stands_for_its_number(n);
    law_low_digits_stand_for_the_low_part(n, width);
    lemma_short_is_small(decimal(n));
    if decimal(n).len() < width {
        vstd::arithmetic::power::lemma_pow_increases(10, decimal(n).len(), width);
        vstd::arithmetic::div_mod::lemma_small_mod(
            n,
            vstd::arithmetic::power::pow(10, width) as nat,
        );
    } else if n < vstd::arithmetic::power::pow(10, width) && width > 0 && decimal(n).len() > width {
        lemma_long_is_large(decimal(n));
        vstd::arithmetic::power::lemma_pow_increases(10, width, (decimal(n).len() - 1) as nat);
    }
}

proof fn lemma_short_is_small(digits: Seq<char>)
    requires
        all_digits(digits),
    ensures
        0 <= value_of(digits) < vstd::arithmetic::power::pow(10, digits.len()),
    decreases digits.len(),
{
    reveal(vstd::arithmetic::power::pow);
    if digits.len() > 0 {
        let less = digits.drop_last();
        assert forall|i: int| 0 <= i < less.len() implies '0' <= #[trigger] less[i] <= '9' by {
            assert(less[i] == digits[i]);
        }
        lemma_short_is_small(less);
    }
}

proof fn lemma_long_is_large(digits: Seq<char>)
    requires
        all_digits(digits),
        digits.len() > 0,
        digits[0] != '0',
    ensures
        value_of(digits) >= vstd::arithmetic::power::pow(10, (digits.len() - 1) as nat),
    decreases digits.len(),
{
    reveal(vstd::arithmetic::power::pow);
    reveal_with_fuel(value_of, 2);
    if digits.len() > 1 {
        let less = digits.drop_last();
        assert forall|i: int| 0 <= i < less.len() implies '0' <= #[trigger] less[i] <= '9' by {
            assert(less[i] == digits[i]);
        }
        lemma_long_is_large(less);
    } else {
        assert(digits.drop_last() =~= Seq::empty());
    }
}

/// Runs of as many digits that stand for the same number are the same.
pub proof fn law_digits_are_determined(a: Seq<char>, b: Seq<char>)
    requires
        all_digits(a),
        all_digits(b),
        a.len() == b.len(),
        value_of(a) == value_of(b),
    ensures
        a == b,
    decreases a.len(),
{
    if a.len() > 0 {
        let c = a.drop_last();
        let d = b.drop_last();
        assert forall|i: int| 0 <= i < c.len() implies '0' <= #[trigger] c[i] <= '9' by {
            assert(c[i] == a[i]);
        }
        assert forall|i: int| 0 <= i < d.len() implies '0' <= #[trigger] d[i] <= '9' by {
            assert(d[i] == b[i]);
        }
        assert('0' <= a.last() <= '9');
        assert('0' <= b.last() <= '9');
        law_digits_are_determined(c, d);
        assert(a =~= c.push(a.last()));
        assert(b =~= d.push(b.last()));
    } else {
        assert(a =~= b);
    }
}

/// Two names count as one exactly when they are spelt alike once white space around them is
/// taken away.
pub proof fn law_names_are_judged_without_case_and_space(a: Seq<char>, b: Seq<char>)
    ensures
        normal_name(a) == normal_name(b) <==> spells_alike(trim(a), trim(b)),
        normal_name(a).len() == 0 <==> is_blank(a),
{
    law_case_is_all_that_is_ignored(trim(a), trim(b));
    law_lower_case_changes_capitals_alone(trim(a));
    lemma_trim_blank(a);
}

/// A part stands in a text exactly where each of its characters does.
pub proof fn law_parts_stand_where_their_characters_do(text: Seq<char>, part: Seq<char>)
    ensures
        occurs(text, part) <==> exists|at: int|
            0 <= at && at + part.len() <= text.len() && #[trigger] matches_at(text, part, at),
        begins_with(text, part) <==> part.len() <= text.len() && matches_at(text, part, 0),
{
    assert forall|at: int|
        0 <= at && at + part.len() <= text.len() implies #[trigger] occurs_at(text, part, at)
        == matches_at(text, part, at) by {
        let piece = text.subrange(at, at + part.len());
        if matches_at(text, part, at) {
            assert(piece =~= part);
        }
        if occurs_at(text, part, at) {
            assert forall|i: int| 0 <= i < part.len() implies text[at + i] == #[trigger] part[i] by {
                assert(piece[i] == text[at + i]);
            }
        }
    }
    if part.len() <= text.len() {
        assert(occurs_at(text, part, 0) == matches_at(text, part, 0));
    }
    if occurs(text, part) {
        let at = choose|at: int| #[trigger] occurs_at(text, part, at);
        assert(matches_at(text, part, at));
    }
    if exists|at: int|
        0 <= at && at + part.len() <= text.len() && #[trigger] matches_at(text, part, at) {
        let at = choose|at: int|
            0 <= at && at + part.len() <= text.len() && #[trigger] matches_at(text, part, at);
        assert(occurs_at(text, part, at));
    }
}

/// Whether the characters of a text from a place on are those of a part.
pub open spec fn matches_at(text: Seq<char>, part: Seq<char>, at: int) -> bool {
    forall|i: int| 0 <= i < part.len() ==> text[at + i] == #[trigger] part[i]
}

/// White space is what separates: among the ASCII characters the blank, the tab and the line
/// and page breaks, and no letter, digit or sign.
pub proof fn law_ascii_white_space(c: char)
    requires
        c as int <= 0x7f,
    ensures
        is_space(c) <==> c == ' ' || c == '\t' || c == '\n' || c == '\r' || c as int == 0xb
            || c as int == 0xc,
        is_space(c) ==> !is_alphanumeric(c),
        is_alphanumeric(c) <==> (c as int >= 48 && c as int <= 57) || (c as int >= 65 && c as int
            <= 90) || (c as int >= 97 && c as int <= 122),
        is_digit(c) <==> 48 <= c as int <= 57,
{
}

} // verus!
