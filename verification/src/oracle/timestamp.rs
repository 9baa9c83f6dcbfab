//! Oracle timestamps: cursor texts, normal forms, and how cursors are read back.

use crate::oracle::error::OracleAdapterError;
use crate::text;
use crate::text::{append_padded, append_signed, chars_of, digit};
use core::str::FromStr;
use vstd::prelude::*;

verus! {

/// The most digits of one number in a timestamp. The client library reads longer numbers
/// with overflow or loss.
pub const MAX_TIMESTAMP_COMPONENT_DIGITS: usize = 9;

/// A timestamp as the client library holds it.
#[derive(Clone, Copy, Debug, PartialEq, Eq, Structural)]
pub struct OracleTimestamp {
    /// -4713 to 9999.
    pub year: i32,
    /// 1 to 12.
    pub month: u32,
    /// 1 to 31.
    pub day: u32,
    /// 0 to 23.
    pub hour: u32,
    /// 0 to 59.
    pub minute: u32,
    /// 0 to 59.
    pub second: u32,
    /// 0 to 999,999,999.
    pub nanosecond: u32,
    /// Hours of the offset from UTC.
    pub tz_hour_offset: i32,
    /// Minutes of the offset from UTC, of the same sign.
    pub tz_minute_offset: i32,
    /// How many fractional digits are written.
    pub precision: u8,
    /// Whether the offset is written.
    pub with_tz: bool,
}

/// How many nanoseconds the last of some fractional digits stands for.
pub open spec fn fraction_unit(digits: u8) -> nat {
    if digits == 1 {
        100_000_000
    } else if digits == 2 {
        10_000_000
    } else if digits == 3 {
        1_000_000
    } else if digits == 4 {
        100_000
    } else if digits == 5 {
        10_000
    } else if digits == 6 {
        1_000
    } else if digits == 7 {
        100
    } else if digits == 8 {
        10
    } else if digits == 9 {
        1
    } else {
        1_000_000_000
    }
}

/// A distance from zero.
pub open spec fn distance(n: int) -> nat {
    if n < 0 {
        (-n) as nat
    } else {
        n as nat
    }
}

/// Two digits.
pub open spec fn two(n: nat) -> Seq<char> {
    text::padded(n, 2)
}

/// Three numbers of two digits with a character between them.
pub open spec fn three(a: nat, b: nat, c: nat, between: char) -> Seq<char> {
    two(a) + seq![between] + (two(b) + seq![between] + two(c))
}

/// The fraction as it is written: as many digits as the precision.
pub open spec fn fraction_text(ts: OracleTimestamp) -> Seq<char> {
    text::padded(ts.nanosecond as nat / fraction_unit(ts.precision), ts.precision as nat)
}

/// The offset as it is written after its sign.
pub open spec fn offset_text(ts: OracleTimestamp) -> Seq<char> {
    two(distance(ts.tz_hour_offset as int)) + seq![':'] + two(distance(ts.tz_minute_offset as int))
}

/// What follows the seconds: the fraction and the offset, each where it is written.
pub open spec fn time_tail(ts: OracleTimestamp) -> Seq<char> {
    let fraction = if 1 <= ts.precision <= 9 {
        seq!['.'] + fraction_text(ts)
    } else {
        Seq::empty()
    };
    let zone = if ts.with_tz {
        seq![' '] + (seq![
            if ts.tz_hour_offset < 0 || ts.tz_minute_offset < 0 {
                '-'
            } else {
                '+'
            },
        ] + offset_text(ts))
    } else {
        Seq::empty()
    };
    fraction + zone
}

/// The text of a timestamp.
pub open spec fn timestamp_text(ts: OracleTimestamp) -> Seq<char> {
    text::signed_decimal(ts.year as int) + seq!['-'] + (two(ts.month as nat) + seq!['-'] + (two(
        ts.day as nat,
    ) + seq![' '] + (three(ts.hour as nat, ts.minute as nat, ts.second as nat, ':') + time_tail(
        ts,
    ))))
}

/// Whether a timestamp is one that a calendar and the client library know, and its text
/// leaves nothing out.
pub open spec fn is_exact(ts: OracleTimestamp) -> bool {
    &&& -4713 <= ts.year <= 9999
    &&& 1 <= ts.month <= 12
    &&& 1 <= ts.day <= 31
    &&& ts.hour <= 23
    &&& ts.minute <= 59
    &&& ts.second <= 59
    &&& ts.nanosecond <= 999_999_999
    &&& ts.precision <= 9
    &&& ts.nanosecond as nat % fraction_unit(ts.precision) == 0
    &&& if ts.with_tz {
        &&& -99 <= ts.tz_hour_offset <= 99
        &&& -59 <= ts.tz_minute_offset <= 59
        &&& ts.tz_hour_offset < 0 ==> ts.tz_minute_offset <= 0
        &&& ts.tz_hour_offset > 0 ==> ts.tz_minute_offset >= 0
    } else {
        ts.tz_hour_offset == 0 && ts.tz_minute_offset == 0
    }
}

/// Whether ten digits stand in a row from a place on.
pub open spec fn runs_from(text: Seq<char>, at: int) -> bool {
    &&& 0 <= at
    &&& at + 10 <= text.len()
    &&& forall|j: int| at <= j < at + 10 ==> text::is_digit(#[trigger] text[j])
}

/// Whether a number of more than nine digits stands in a text.
pub open spec fn has_long_number(text: Seq<char>) -> bool {
    exists|at: int| #[trigger] runs_from(text, at)
}

/// The timestamp that the client library reads in a text, if it reads one.
pub uninterp spec fn parsed_timestamp(text: Seq<char>) -> Option<OracleTimestamp>;

/// `oracle::sql_type::Timestamp::from_str`: the timestamp that a text spells. The text of an
/// exact timestamp spells that timestamp. A longer number than nine digits could overflow.
#[verifier::external_body]
fn parse_native(text: &str) -> (r: Option<OracleTimestamp>)
    requires
        !has_long_number(text@),
    ensures
        r == parsed_timestamp(text@),
        forall|ts: OracleTimestamp|
            is_exact(ts) && text@ == #[trigger] timestamp_text(ts) ==> r == Some(ts),
{
    oracle::sql_type::Timestamp::from_str(text).ok().map(
        |ts|
            OracleTimestamp {
                year: ts.year(), month: ts.month(), day: ts.day(), hour: ts.hour(),
                minute: ts.minute(), second: ts.second(), nanosecond: ts.nanosecond(),
                tz_hour_offset: ts.tz_hour_offset(), tz_minute_offset: ts.tz_minute_offset(),
                precision: ts.precision(), with_tz: ts.with_tz(),
            },
    )
}

fn has_long(text: &str) -> (found: bool)
    ensures
        found == has_long_number(text@),
{
    let chars = chars_of(text);
    let mut digits: usize = 0;
    let mut i: usize = 0;
    while i < chars.len()
        invariant
            i <= chars@.len(),
            chars@ == text@,
            digits <= 9,
            digits <= i,
            forall|j: int| i - digits <= j < i ==> text::is_digit(#[trigger] text@[j]),
            digits < i ==> !text::is_digit(text@[i - digits - 1]),
            forall|at: int| at + 10 <= i ==> !#[trigger] runs_from(text@, at),
        decreases chars.len() - i,
    {
        if digit(chars[i]) {
            digits += 1;
            if digits > MAX_TIMESTAMP_COMPONENT_DIGITS {
                assert(runs_from(text@, i - 9));
                return true;
            }
        } else {
            digits = 0;
        }
        assert forall|at: int| at + 10 <= i + 1 implies !#[trigger] runs_from(text@, at) by {
            if at + 10 == i + 1 && at >= 0 {
                assert(!text::is_digit(text@[i - digits]));
            }
        }
        i += 1;
    }
    false
}

/// The timestamp that a cursor's text spells, if it spells one.
pub open spec fn cursor_timestamp(text: Seq<char>) -> Option<OracleTimestamp> {
    if has_long_number(text) {
        None
    } else {
        parsed_timestamp(text)
    }
}

/// Why a cursor's text spells no timestamp.
pub open spec fn timestamp_fault(text: Seq<char>) -> Seq<char> {
    if has_long_number(text) {
        "timestamp numeric component exceeds nine digits"@
    } else {
        "timestamp is not an Oracle timestamp"@
    }
}

/// Reads a cursor's text without overflow or loss. What was written of an exact timestamp is
/// read back as that timestamp.
pub fn parse_cursor_timestamp(text: &str) -> (r: Result<OracleTimestamp, OracleAdapterError>)
    ensures
        match r {
            Ok(ts) => cursor_timestamp(text@) == Some(ts),
            Err(error) => {
                &&& cursor_timestamp(text@) is None
                &&& error matches OracleAdapterError::InvalidCursorTimestamp(fault)
                &&& fault@ == timestamp_fault(text@)
            },
        },
        forall|ts: OracleTimestamp|
            is_exact(ts) && text@ == #[trigger] timestamp_text(ts) ==> r == Ok::<
                OracleTimestamp,
                OracleAdapterError,
            >(ts),
{
    if has_long(text) {
        assert forall|ts: OracleTimestamp|
            is_exact(ts) && text@ == #[trigger] timestamp_text(ts) implies false by {
            lemma_text_has_no_long_number(ts);
        }
        return Err(
            OracleAdapterError::InvalidCursorTimestamp(
                "timestamp numeric component exceeds nine digits",
            ),
        );
    }
    match parse_native(text) {
        Some(ts) => Ok(ts),
        None => Err(
            OracleAdapterError::InvalidCursorTimestamp("timestamp is not an Oracle timestamp"),
        ),
    }
}

spec fn ten_to(width: nat) -> nat
    decreases width,
{
    if width == 0 {
        1
    } else {
        10 * ten_to((width - 1) as nat)
    }
}

proof fn lemma_decimal_len(n: nat, width: nat)
    requires
        width >= 1,
        n < ten_to(width),
    ensures
        1 <= text::decimal(n).len() <= width,
    decreases width,
{
    if n >= 10 {
        assert(width > 1) by {
            reveal_with_fuel(ten_to, 2);
        }
        lemma_decimal_len(n / 10, (width - 1) as nat);
    }
}

proof fn lemma_low_digits_len(n: nat, width: nat)
    ensures
        text::low_digits(n, width).len() == width,
    decreases width,
{
    if width > 0 {
        lemma_low_digits_len(n / 10, (width - 1) as nat);
    }
}

proof fn lemma_padded_len(n: nat, width: nat, most: nat)
    requires
        most >= 1,
        n < ten_to(most),
        width <= most,
    ensures
        text::padded(n, width).len() <= most,
{
    lemma_decimal_len(n, most);
    lemma_low_digits_len(n, width);
}

proof fn lemma_short(text: Seq<char>)
    requires
        text.len() <= 9,
    ensures
        !has_long_number(text),
{
}

proof fn lemma_split(a: Seq<char>, c: char, b: Seq<char>)
    requires
        !has_long_number(a),
        !has_long_number(b),
        !text::is_digit(c),
    ensures
        !has_long_number(a + seq![c] + b),
{
    let whole = a + seq![c] + b;
    assert forall|at: int| !#[trigger] runs_from(whole, at) by {
        if runs_from(whole, at) {
            if at + 10 <= a.len() {
                assert(runs_from(a, at)) by {
                    assert forall|j: int| at <= j < at + 10 implies text::is_digit(
                        #[trigger] a[j],
                    ) by {
                        assert(whole[j] == a[j]);
                    }
                }
            } else if at <= a.len() {
                assert(whole[a.len() as int] == c);
            } else {
                let from = at - a.len() - 1;
                assert(runs_from(b, from)) by {
                    assert forall|j: int| from <= j < from + 10 implies text::is_digit(
                        #[trigger] b[j],
                    ) by {
                        assert(whole[j + a.len() + 1] == b[j]);
                    }
                }
            }
        }
    }
}

proof fn lemma_two(n: nat)
    requires
        n < 100,
    ensures
        text::padded(n, 2).len() <= 2,
        !has_long_number(two(n)),
{
    reveal_with_fuel(ten_to, 3);
    lemma_padded_len(n, 2, 2);
    lemma_short(two(n));
}

proof fn lemma_time_tail(ts: OracleTimestamp, before: Seq<char>)
    requires
        is_exact(ts),
        before.len() <= 2,
    ensures
        !has_long_number(before + time_tail(ts)),
{
    let offset = offset_text(ts);
    lemma_two(distance(ts.tz_hour_offset as int));
    lemma_two(distance(ts.tz_minute_offset as int));
    lemma_split(
        two(distance(ts.tz_hour_offset as int)),
        ':',
        two(distance(ts.tz_minute_offset as int)),
    );
    let sign = if ts.tz_hour_offset < 0 || ts.tz_minute_offset < 0 {
        '-'
    } else {
        '+'
    };
    let empty = Seq::<char>::empty();
    lemma_short(empty);
    lemma_split(empty, sign, offset);
    assert(empty + seq![sign] + offset =~= seq![sign] + offset);
    let zone = seq![' '] + (seq![sign] + offset);
    lemma_short(before);
    if 1 <= ts.precision <= 9 {
        let fraction = fraction_text(ts);
        assert(fraction.len() <= 9) by {
            let value = ts.nanosecond as nat / fraction_unit(ts.precision);
            reveal_with_fuel(ten_to, 10);
            assert(value <= ts.nanosecond) by (nonlinear_arith)
                requires
                    value == ts.nanosecond as nat / fraction_unit(ts.precision),
                    fraction_unit(ts.precision) >= 1,
            ;
            lemma_padded_len(value, ts.precision as nat, 9);
        }
        lemma_short(fraction);
        if ts.with_tz {
            lemma_split(fraction, ' ', seq![sign] + offset);
            assert(fraction + seq![' '] + (seq![sign] + offset) =~= fraction + zone);
            lemma_split(before, '.', fraction + zone);
            assert(before + seq!['.'] + (fraction + zone) =~= before + time_tail(ts));
        } else {
            lemma_split(before, '.', fraction);
            assert(before + seq!['.'] + fraction =~= before + time_tail(ts));
        }
    } else if ts.with_tz {
        lemma_split(before, ' ', seq![sign] + offset);
        assert(before + seq![' '] + (seq![sign] + offset) =~= before + time_tail(ts));
    } else {
        assert(before + time_tail(ts) =~= before);
    }
}

proof fn lemma_text_has_no_long_number(ts: OracleTimestamp)
    requires
        is_exact(ts),
    ensures
        !has_long_number(timestamp_text(ts)),
{
    let year = text::signed_decimal(ts.year as int);
    assert(year.len() <= 5) by {
        reveal_with_fuel(ten_to, 5);
        lemma_decimal_len(distance(ts.year as int), 4);
    }
    lemma_short(year);
    lemma_two(ts.month as nat);
    lemma_two(ts.day as nat);
    lemma_two(ts.hour as nat);
    lemma_two(ts.minute as nat);
    lemma_two(ts.second as nat);
    let second = two(ts.second as nat);
    lemma_time_tail(ts, second);
    let seconds = second + time_tail(ts);
    lemma_split(two(ts.minute as nat), ':', seconds);
    let minutes = two(ts.minute as nat) + seq![':'] + seconds;
    lemma_split(two(ts.hour as nat), ':', minutes);
    let time = two(ts.hour as nat) + seq![':'] + minutes;
    let whole_time = three(ts.hour as nat, ts.minute as nat, ts.second as nat, ':') + time_tail(ts);
    assert(whole_time =~= time);
    lemma_split(two(ts.day as nat), ' ', whole_time);
    let days = two(ts.day as nat) + seq![' '] + whole_time;
    lemma_split(two(ts.month as nat), '-', days);
    let months = two(ts.month as nat) + seq!['-'] + days;
    lemma_split(year, '-', months);
}

fn unit_of(digits: u8) -> (n: u32)
    ensures
        n == fraction_unit(digits),
        n >= 1,
{
    match digits {
        1 => 100_000_000,
        2 => 10_000_000,
        3 => 1_000_000,
        4 => 100_000,
        5 => 10_000,
        6 => 1_000,
        7 => 100,
        8 => 10,
        9 => 1,
        _ => 1_000_000_000,
    }
}

fn distance_of(n: i32) -> (r: u64)
    ensures
        r == distance(n as int),
{
    let wide: i64 = n as i64;
    if wide < 0 {
        (-wide) as u64
    } else {
        wide as u64
    }
}

fn append_three(out: &mut String, a: u32, b: u32, c: u32, between: char)
    ensures
        final(out)@ == old(out)@ + three(a as nat, b as nat, c as nat, between),
{
    let ghost before = out@;
    append_padded(out, a as u64, 2);
    out.push(between);
    append_padded(out, b as u64, 2);
    out.push(between);
    append_padded(out, c as u64, 2);
    assert(out@ =~= before + three(a as nat, b as nat, c as nat, between));
}

fn append_offset(out: &mut String, ts: &OracleTimestamp)
    ensures
        final(out)@ == old(out)@ + offset_text(*ts),
{
    let ghost before = out@;
    append_padded(out, distance_of(ts.tz_hour_offset), 2);
    out.push(':');
    append_padded(out, distance_of(ts.tz_minute_offset), 2);
    assert(out@ =~= before + offset_text(*ts));
}

fn append_fraction(out: &mut String, ts: &OracleTimestamp)
    ensures
        final(out)@ == old(out)@ + if 1 <= ts.precision <= 9 {
            seq!['.'] + fraction_text(*ts)
        } else {
            Seq::empty()
        },
{
    let ghost before = out@;
    if 1 <= ts.precision && ts.precision <= 9 {
        out.push('.');
        append_padded(
            out,
            (ts.nanosecond / unit_of(ts.precision)) as u64,
            ts.precision as usize,
        );
        assert(out@ =~= before + (seq!['.'] + fraction_text(*ts)));
    } else {
        assert(out@ =~= before + Seq::empty());
    }
}

fn append_time_tail(out: &mut String, ts: &OracleTimestamp)
    ensures
        final(out)@ == old(out)@ + time_tail(*ts),
{
    let ghost before = out@;
    append_fraction(out, ts);
    if ts.with_tz {
        out.push(' ');
        out.push(
            if ts.tz_hour_offset < 0 || ts.tz_minute_offset < 0 {
                '-'
            } else {
                '+'
            },
        );
        append_offset(out, ts);
    }
    assert(out@ =~= before + time_tail(*ts));
}

/// Writes a timestamp with as many fractional digits as its precision, and with its offset
/// where it has one.
pub fn cursor_text(ts: &OracleTimestamp) -> (r: String)
    ensures
        r@ == timestamp_text(*ts),
{
    let mut out = String::new();
    append_signed(&mut out, ts.year as i64);
    out.push('-');
    append_padded(&mut out, ts.month as u64, 2);
    out.push('-');
    append_padded(&mut out, ts.day as u64, 2);
    out.push(' ');
    append_three(&mut out, ts.hour, ts.minute, ts.second, ':');
    append_time_tail(&mut out, ts);
    let ghost time = three(ts.hour as nat, ts.minute as nat, ts.second as nat, ':');
    assert(out@ =~= text::signed_decimal(ts.year as int) + seq!['-'] + (two(ts.month as nat) + seq![
        '-',
    ] + (two(ts.day as nat) + seq![' '] + (time + time_tail(*ts)))));
    out
}

/// A year in four characters at least, its sign among them.
pub open spec fn year_text(year: int) -> Seq<char> {
    if year < 0 {
        seq!['-'] + text::padded((-year) as nat, 3)
    } else {
        text::padded(year as nat, 4)
    }
}

/// Whether an offset is west of UTC.
pub open spec fn is_west(ts: OracleTimestamp) -> bool {
    ts.tz_hour_offset * 3600 + ts.tz_minute_offset * 60 < 0
}

/// The normal form of a timestamp: all nine fractional digits, and the offset where the
/// source has one.
pub open spec fn normal_text(ts: OracleTimestamp, with_timezone: bool) -> Seq<char> {
    let base = year_text(ts.year as int) + seq!['-'] + two(ts.month as nat) + seq!['-'] + two(
        ts.day as nat,
    ) + seq!['T'] + three(ts.hour as nat, ts.minute as nat, ts.second as nat, ':') + seq!['.']
        + text::padded(ts.nanosecond as nat, 9);
    if with_timezone {
        base + seq![
            if is_west(ts) {
                '-'
            } else {
                '+'
            },
        ] + offset_text(ts)
    } else {
        base
    }
}

/// Writes the normal form of a timestamp.
pub fn format_oracle_timestamp(ts: &OracleTimestamp, with_timezone: bool) -> (r: String)
    ensures
        r@ == normal_text(*ts, with_timezone),
{
    let mut out = String::new();
    if ts.year < 0 {
        out.push('-');
        append_padded(&mut out, distance_of(ts.year), 3);
    } else {
        append_padded(&mut out, distance_of(ts.year), 4);
    }
    assert(out@ =~= year_text(ts.year as int));
    out.push('-');
    append_padded(&mut out, ts.month as u64, 2);
    out.push('-');
    append_padded(&mut out, ts.day as u64, 2);
    out.push('T');
    append_three(&mut out, ts.hour, ts.minute, ts.second, ':');
    out.push('.');
    append_padded(&mut out, ts.nanosecond as u64, 9);
    assert(out@ =~= normal_text(*ts, false));
    if with_timezone {
        let offset: i64 = ts.tz_hour_offset as i64 * 3600 + ts.tz_minute_offset as i64 * 60;
        out.push(
            if offset < 0 {
                '-'
            } else {
                '+'
            },
        );
        append_offset(&mut out, ts);
        assert(out@ =~= normal_text(*ts, true));
    }
    out
}

/// Whether the characters of a text from a place on are digits that stand for a number.
pub open spec fn shows(text: Seq<char>, from: int, width: int, n: int) -> bool {
    &&& 0 <= from
    &&& from + width <= text.len()
    &&& text::all_digits(text.subrange(from, from + width))
    &&& text::value_of(text.subrange(from, from + width)) == n
}

proof fn lemma_two_shows(n: nat)
    requires
        n < 100,
    ensures
        two(n).len() == 2,
        text::all_digits(two(n)),
        text::value_of(two(n)) == n,
{
    text::law_padded_stands_for_its_number(n, 2);
    assert(vstd::arithmetic::power::pow(10, 2) == 100) by {
        reveal_with_fuel(vstd::arithmetic::power::pow, 3);
    }
}

proof fn lemma_nine_shows(n: nat)
    requires
        n < 1_000_000_000,
    ensures
        text::padded(n, 9).len() == 9,
        text::all_digits(text::padded(n, 9)),
        text::value_of(text::padded(n, 9)) == n,
{
    text::law_padded_stands_for_its_number(n, 9);
    assert(vstd::arithmetic::power::pow(10, 9) == 1_000_000_000) by {
        reveal_with_fuel(vstd::arithmetic::power::pow, 10);
    }
}

/// Whether a timestamp's numbers have the widths that a clock and a calendar give them.
pub open spec fn is_clock(ts: OracleTimestamp) -> bool {
    &&& ts.month <= 99
    &&& ts.day <= 99
    &&& ts.hour <= 99
    &&& ts.minute <= 99
    &&& ts.second <= 99
    &&& ts.nanosecond <= 999_999_999
    &&& -99 <= ts.tz_hour_offset <= 99
    &&& -99 <= ts.tz_minute_offset <= 99
}

/// Whether a text is a date and a time of these numbers, each in its place after the year:
/// two digits each, and nine of the fraction.
pub open spec fn shows_clock(text: Seq<char>, year: int, ts: OracleTimestamp) -> bool {
    &&& year + 25 <= text.len()
    &&& text[year] == '-'
    &&& shows(text, year + 1, 2, ts.month as int)
    &&& text[year + 3] == '-'
    &&& shows(text, year + 4, 2, ts.day as int)
    &&& text[year + 6] == 'T'
    &&& shows(text, year + 7, 2, ts.hour as int)
    &&& text[year + 9] == ':'
    &&& shows(text, year + 10, 2, ts.minute as int)
    &&& text[year + 12] == ':'
    &&& shows(text, year + 13, 2, ts.second as int)
    &&& text[year + 15] == '.'
    &&& shows(text, year + 16, 9, ts.nanosecond as int)
}

/// Whether a text shows a year from its beginning: four digits at least, or a minus sign and
/// three at least.
pub open spec fn shows_year(text: Seq<char>, width: int, year: int) -> bool {
    if year < 0 {
        width >= 4 && text[0] == '-' && shows(text, 1, width - 1, -year)
    } else {
        width >= 4 && shows(text, 0, width, year)
    }
}

/// Whether a text shows an offset from a place on: its sign, two digits of hours, a colon and
/// two digits of minutes.
pub open spec fn shows_offset(text: Seq<char>, at: int, ts: OracleTimestamp) -> bool {
    &&& 0 <= at
    &&& at + 6 <= text.len()
    &&& text[at] == if ts.tz_hour_offset * 60 + ts.tz_minute_offset < 0 {
        '-'
    } else {
        '+'
    }
    &&& shows(
        text,
        at + 1,
        2,
        if ts.tz_hour_offset < 0 {
            -ts.tz_hour_offset as int
        } else {
            ts.tz_hour_offset as int
        },
    )
    &&& text[at + 3] == ':'
    &&& shows(
        text,
        at + 4,
        2,
        if ts.tz_minute_offset < 0 {
            -ts.tz_minute_offset as int
        } else {
            ts.tz_minute_offset as int
        },
    )
}

/// Whether a text shows a timestamp without an offset, and nothing more.
pub open spec fn shows_local(text: Seq<char>, ts: OracleTimestamp) -> bool {
    exists|width: int|
        #![trigger shows_year(text, width, ts.year as int)]
        text.len() == width + 25 && shows_year(text, width, ts.year as int) && shows_clock(
            text,
            width,
            ts,
        ) && (-999 <= ts.year <= 9999 ==> width == 4)
}

/// The normal form of a timestamp shows every one of its numbers in its place: year, month,
/// day, hour, minute, second and nanosecond, and then, where the source has one, the offset
/// and nothing more.
pub proof fn law_normal_form_shows_the_timestamp(ts: OracleTimestamp)
    requires
        is_clock(ts),
    ensures
        shows_local(normal_text(ts, false), ts),
        normal_text(ts, true).len() == normal_text(ts, false).len() + 6,
        normal_text(ts, true).take(normal_text(ts, false).len() as int) == normal_text(ts, false),
        shows_offset(normal_text(ts, true), normal_text(ts, false).len() as int, ts),
{
    let year = year_text(ts.year as int);
    let width = year.len() as int;
    let base = normal_text(ts, false);
    let whole = normal_text(ts, true);
    lemma_two_shows(ts.month as nat);
    lemma_two_shows(ts.day as nat);
    lemma_two_shows(ts.hour as nat);
    lemma_two_shows(ts.minute as nat);
    lemma_two_shows(ts.second as nat);
    lemma_nine_shows(ts.nanosecond as nat);
    lemma_two_shows(distance(ts.tz_hour_offset as int));
    lemma_two_shows(distance(ts.tz_minute_offset as int));
    assert(base.len() == width + 25);
    assert(base.subrange(0, width) =~= year);
    assert(base.subrange(width + 1, width + 3) =~= two(ts.month as nat));
    assert(base.subrange(width + 4, width + 6) =~= two(ts.day as nat));
    assert(base.subrange(width + 7, width + 9) =~= two(ts.hour as nat));
    assert(base.subrange(width + 10, width + 12) =~= two(ts.minute as nat));
    assert(base.subrange(width + 13, width + 15) =~= two(ts.second as nat));
    assert(base.subrange(width + 16, width + 25) =~= text::padded(ts.nanosecond as nat, 9));
    assert(vstd::arithmetic::power::pow(10, 3) == 1_000 && vstd::arithmetic::power::pow(10, 4)
        == 10_000) by {
        reveal_with_fuel(vstd::arithmetic::power::pow, 5);
    }
    if ts.year < 0 {
        text::law_padded_stands_for_its_number((-ts.year) as nat, 3);
        assert(base.subrange(1, width) =~= text::padded((-ts.year) as nat, 3));
        assert(base[0] == year[0]);
    } else {
        text::law_padded_stands_for_its_number(ts.year as nat, 4);
    }
    assert(shows_year(base, width, ts.year as int));
    assert(shows_clock(base, width, ts));
    let at = base.len() as int;
    assert(whole.take(at) =~= base);
    assert(whole.subrange(at + 1, at + 3) =~= two(distance(ts.tz_hour_offset as int)));
    assert(whole.subrange(at + 4, at + 6) =~= two(distance(ts.tz_minute_offset as int)));
}

proof fn lemma_shown_once(a: Seq<char>, b: Seq<char>, from: int, width: int, m: int, n: int)
    requires
        a == b,
        shows(a, from, width, m),
        shows(b, from, width, n),
    ensures
        m == n,
{
}

/// Timestamps with the same normal form are the same, number by number: the date, the time
/// and the nanosecond, and the offset where it is shown.
pub proof fn law_normal_form_tells_timestamps_apart(a: OracleTimestamp, b: OracleTimestamp)
    requires
        is_clock(a),
        is_clock(b),
        -999 <= a.year <= 9999,
        -999 <= b.year <= 9999,
        a.tz_hour_offset < 0 ==> a.tz_minute_offset <= 0,
        a.tz_hour_offset > 0 ==> a.tz_minute_offset >= 0,
        b.tz_hour_offset < 0 ==> b.tz_minute_offset <= 0,
        b.tz_hour_offset > 0 ==> b.tz_minute_offset >= 0,
        normal_text(a, true) == normal_text(b, true) || normal_text(a, false) == normal_text(
            b,
            false,
        ),
    ensures
        a.year == b.year,
        a.month == b.month,
        a.day == b.day,
        a.hour == b.hour,
        a.minute == b.minute,
        a.second == b.second,
        a.nanosecond == b.nanosecond,
        normal_text(a, true) == normal_text(b, true) ==> a.tz_hour_offset == b.tz_hour_offset
            && a.tz_minute_offset == b.tz_minute_offset,
{
    law_normal_form_shows_the_timestamp(a);
    law_normal_form_shows_the_timestamp(b);
    let s = normal_text(a, false);
    let t = normal_text(b, false);
    let v = choose|width: int|
        #![trigger shows_year(s, width, a.year as int)]
        s.len() == width + 25 && shows_year(s, width, a.year as int) && shows_clock(s, width, a)
            && (-999 <= a.year <= 9999 ==> width == 4);
    let w = choose|width: int|
        #![trigger shows_year(t, width, b.year as int)]
        t.len() == width + 25 && shows_year(t, width, b.year as int) && shows_clock(t, width, b)
            && (-999 <= b.year <= 9999 ==> width == 4);
    assert(v == 4 && w == 4);
    if normal_text(a, true) == normal_text(b, true) {
        assert(s =~= normal_text(a, true).take(29));
        assert(t =~= normal_text(b, true).take(29));
    }
    assert(s == t);
    if a.year < 0 && b.year >= 0 {
        assert(t.subrange(0, 4)[0] == t[0]);
    }
    if b.year < 0 && a.year >= 0 {
        assert(s.subrange(0, 4)[0] == s[0]);
    }
    if normal_text(a, true) == normal_text(b, true) {
        let x = normal_text(a, true);
        assert(shows_offset(x, 29, a) && shows_offset(x, 29, b));
    }
}

/// The number that the digits of a text from a place on stand for.
pub open spec fn number_at(text: Seq<char>, from: int, width: int) -> int {
    text::value_of(text.subrange(from, from + width))
}

/// The instant that an RFC 3339 text with a four-digit year and nine decimals stands for, in
/// nanoseconds, given how dates are numbered.
pub open spec fn rfc3339_nanos(text: Seq<char>, day: spec_fn(int, int, int) -> int) -> int {
    let date = day(number_at(text, 0, 4), number_at(text, 5, 2), number_at(text, 8, 2));
    let seconds = number_at(text, 11, 2) * 3600 + number_at(text, 14, 2) * 60 + number_at(
        text,
        17,
        2,
    );
    let ahead = number_at(text, 30, 2) * 60 + number_at(text, 33, 2);
    let offset = if text[29] == '-' {
        -ahead
    } else {
        ahead
    };
    (date * 86400 + seconds - offset * 60) * 1_000_000_000 + number_at(text, 20, 9)
}

/// The normal form of a timestamp with its offset, read as RFC 3339, is the timestamp's own
/// instant: its local date and time less its offset.
pub proof fn law_normal_form_is_the_instant(
    ts: OracleTimestamp,
    day: spec_fn(int, int, int) -> int,
)
    requires
        is_clock(ts),
        0 <= ts.year <= 9999,
        ts.tz_hour_offset < 0 ==> ts.tz_minute_offset <= 0,
        ts.tz_hour_offset > 0 ==> ts.tz_minute_offset >= 0,
    ensures
        normal_text(ts, true).len() == 35,
        rfc3339_nanos(normal_text(ts, true), day) == (day(
            ts.year as int,
            ts.month as int,
            ts.day as int,
        ) * 86400 + ts.hour * 3600 + ts.minute * 60 + ts.second - (ts.tz_hour_offset * 60
            + ts.tz_minute_offset) * 60) * 1_000_000_000 + ts.nanosecond,
{
    law_normal_form_shows_the_timestamp(ts);
    let base = normal_text(ts, false);
    let whole = normal_text(ts, true);
    let w = choose|width: int|
        #![trigger shows_year(base, width, ts.year as int)]
        base.len() == width + 25 && shows_year(base, width, ts.year as int) && shows_clock(
            base,
            width,
            ts,
        ) && (-999 <= ts.year <= 9999 ==> width == 4);
    assert(w == 4);
    assert(whole.take(29) == base);
    assert(whole.subrange(0, 4) =~= base.subrange(0, 4));
    assert(whole.subrange(5, 7) =~= base.subrange(5, 7));
    assert(whole.subrange(8, 10) =~= base.subrange(8, 10));
    assert(whole.subrange(11, 13) =~= base.subrange(11, 13));
    assert(whole.subrange(14, 16) =~= base.subrange(14, 16));
    assert(whole.subrange(17, 19) =~= base.subrange(17, 19));
    assert(whole.subrange(20, 29) =~= base.subrange(20, 29));
    assert(number_at(whole, 0, 4) == ts.year);
    assert(number_at(whole, 5, 2) == ts.month);
    assert(number_at(whole, 8, 2) == ts.day);
    assert(number_at(whole, 11, 2) == ts.hour);
    assert(number_at(whole, 14, 2) == ts.minute);
    assert(number_at(whole, 17, 2) == ts.second);
    assert(number_at(whole, 20, 9) == ts.nanosecond);
    assert(shows_offset(whole, 29, ts));
}

proof fn lemma_fraction_unit(digits: u8)
    requires
        1 <= digits <= 9,
    ensures
        fraction_unit(digits) * vstd::arithmetic::power::pow(10, digits as nat) == 1_000_000_000,
        fraction_unit(digits) > 0,
{
    reveal_with_fuel(vstd::arithmetic::power::pow, 10);
    if digits == 1 {
        assert(vstd::arithmetic::power::pow(10, 1) == 10);
    } else if digits == 2 {
        assert(vstd::arithmetic::power::pow(10, 2) == 100);
    } else if digits == 3 {
        assert(vstd::arithmetic::power::pow(10, 3) == 1_000);
    } else if digits == 4 {
        assert(vstd::arithmetic::power::pow(10, 4) == 10_000);
    } else if digits == 5 {
        assert(vstd::arithmetic::power::pow(10, 5) == 100_000);
    } else if digits == 6 {
        assert(vstd::arithmetic::power::pow(10, 6) == 1_000_000);
    } else if digits == 7 {
        assert(vstd::arithmetic::power::pow(10, 7) == 10_000_000);
    } else if digits == 8 {
        assert(vstd::arithmetic::power::pow(10, 8) == 100_000_000);
    } else {
        assert(vstd::arithmetic::power::pow(10, 9) == 1_000_000_000);
    }
}

/// The last of some fractional digits stands for that tenth part of a second, so a fraction of
/// so many digits counts up to a whole second.
pub proof fn law_fractional_digits_are_tenths(digits: u8)
    requires
        1 <= digits <= 9,
    ensures
        fraction_unit(digits) * vstd::arithmetic::power::pow(10, digits as nat) == 1_000_000_000,
{
    lemma_fraction_unit(digits);
}

/// Whether a text shows a date and a time of day of these numbers from a place on, each of two
/// digits.
pub open spec fn shows_seconds(text: Seq<char>, at: int, ts: OracleTimestamp) -> bool {
    &&& at + 15 <= text.len()
    &&& text[at] == '-'
    &&& shows(text, at + 1, 2, ts.month as int)
    &&& text[at + 3] == '-'
    &&& shows(text, at + 4, 2, ts.day as int)
    &&& text[at + 6] == ' '
    &&& shows(text, at + 7, 2, ts.hour as int)
    &&& text[at + 9] == ':'
    &&& shows(text, at + 10, 2, ts.minute as int)
    &&& text[at + 12] == ':'
    &&& shows(text, at + 13, 2, ts.second as int)
}

/// Whether a text shows a fraction from a place on: a point, and as many digits as the
/// timestamp has, which stand for its nanoseconds.
pub open spec fn shows_fraction(text: Seq<char>, at: int, ts: OracleTimestamp) -> bool {
    &&& at + 1 + ts.precision <= text.len()
    &&& text[at] == '.'
    &&& text::all_digits(text.subrange(at + 1, at + 1 + ts.precision))
    &&& text::value_of(text.subrange(at + 1, at + 1 + ts.precision)) * 1_000_000_000
        == ts.nanosecond * vstd::arithmetic::power::pow(10, ts.precision as nat)
}

/// Whether a text shows a year from its beginning in as many characters: its digits, after a
/// minus sign where it is before the first.
pub open spec fn shows_plain_year(text: Seq<char>, width: int, year: int) -> bool {
    if year < 0 {
        width > 1 && text[0] == '-' && shows(text, 1, width - 1, -year)
    } else {
        width > 0 && shows(text, 0, width, year)
    }
}

/// Whether a text shows a whole timestamp whose year takes so many characters, and nothing
/// more: its fraction where it has a precision, and its offset where it has one.
pub open spec fn shows_cursor(text: Seq<char>, width: int, ts: OracleTimestamp) -> bool {
    let end = width + 15 + if ts.precision == 0 {
        0
    } else {
        ts.precision + 1
    };
    &&& shows_plain_year(text, width, ts.year as int)
    &&& shows_seconds(text, width, ts)
    &&& ts.precision > 0 ==> shows_fraction(text, width + 15, ts)
    &&& if ts.with_tz {
        text.len() == end + 7 && text[end] == ' ' && shows_offset(text, end + 1, ts)
    } else {
        text.len() == end
    }
}

/// The text of a cursor shows every number of an exact timestamp in its place, so nothing of
/// the position is lost.
pub proof fn law_cursor_text_shows_the_timestamp(ts: OracleTimestamp)
    requires
        is_exact(ts),
    ensures
        shows_cursor(
            timestamp_text(ts),
            text::signed_decimal(ts.year as int).len() as int,
            ts,
        ),
{
    let shown = timestamp_text(ts);
    let year = text::signed_decimal(ts.year as int);
    let width = year.len() as int;
    text::law_signed_decimal_stands_for_its_number(ts.year as int);
    if ts.year >= 0 {
        text::law_decimal_stands_for_its_number(ts.year as nat);
    }
    lemma_two_shows(ts.month as nat);
    lemma_two_shows(ts.day as nat);
    lemma_two_shows(ts.hour as nat);
    lemma_two_shows(ts.minute as nat);
    lemma_two_shows(ts.second as nat);
    lemma_two_shows(distance(ts.tz_hour_offset as int));
    lemma_two_shows(distance(ts.tz_minute_offset as int));
    assert(shown.subrange(0, width) =~= year);
    assert(shown.subrange(1, width) =~= year.skip(1));
    assert(shown[0] == year[0]);
    assert(shown.subrange(width + 1, width + 3) =~= two(ts.month as nat));
    assert(shown.subrange(width + 4, width + 6) =~= two(ts.day as nat));
    assert(shown.subrange(width + 7, width + 9) =~= two(ts.hour as nat));
    assert(shown.subrange(width + 10, width + 12) =~= two(ts.minute as nat));
    assert(shown.subrange(width + 13, width + 15) =~= two(ts.second as nat));
    assert(shown.skip(width + 15) =~= time_tail(ts));
    lemma_tail_shows(ts, shown, width + 15);
}

proof fn lemma_tail_shows(ts: OracleTimestamp, shown: Seq<char>, at: int)
    requires
        is_exact(ts),
        0 <= at <= shown.len(),
        shown.skip(at) == time_tail(ts),
    ensures
        ts.precision > 0 ==> shows_fraction(shown, at, ts),
        ({
            let end = at + if ts.precision == 0 {
                0
            } else {
                ts.precision + 1
            };
            if ts.with_tz {
                shown.len() == end + 7 && shown[end] == ' ' && shows_offset(shown, end + 1, ts)
            } else {
                shown.len() == end
            }
        }),
{
    let tail = time_tail(ts);
    let end = at + if ts.precision == 0 {
        0
    } else {
        ts.precision + 1
    };
    assert forall|i: int| 0 <= i < tail.len() implies shown[at + i] == #[trigger] tail[i] by {
        assert(shown.skip(at)[i] == tail[i]);
    }
    assert(shown.len() == at + tail.len());
    lemma_two_shows(distance(ts.tz_hour_offset as int));
    lemma_two_shows(distance(ts.tz_minute_offset as int));
    if ts.precision > 0 {
        let unit = fraction_unit(ts.precision) as int;
        let power = vstd::arithmetic::power::pow(10, ts.precision as nat);
        let n = ts.nanosecond as int;
        let v = n / unit;
        lemma_fraction_unit(ts.precision);
        vstd::arithmetic::power::lemma_pow_positive(10, ts.precision as nat);
        assert(v * unit == n) by (nonlinear_arith)
            requires
                v == n / unit,
                n % unit == 0,
                unit > 0,
        ;
        assert(0 <= v < power) by (nonlinear_arith)
            requires
                v * unit == n,
                0 <= n < 1_000_000_000,
                unit * power == 1_000_000_000,
                unit > 0,
                power > 0,
        ;
        assert(v * 1_000_000_000 == n * power) by (nonlinear_arith)
            requires
                v * unit == n,
                unit * power == 1_000_000_000,
        ;
        text::law_padded_stands_for_its_number(v as nat, ts.precision as nat);
        assert(fraction_text(ts).len() == ts.precision);
        assert(tail[0] == '.');
        assert(shown.subrange(at + 1, at + 1 + ts.precision) =~= fraction_text(ts)) by {
            assert forall|i: int| 0 <= i < ts.precision implies shown[at + 1 + i]
                == fraction_text(ts)[i] by {
                assert(tail[1 + i] == fraction_text(ts)[i]);
            }
        }
    }
    if ts.with_tz {
        let z = end - at;
        assert(tail.len() == z + 7);
        assert(tail[z] == ' ');
        assert(tail[z + 4] == ':');
        assert(shown.subrange(end + 2, end + 4) =~= two(distance(ts.tz_hour_offset as int))) by {
            assert(shown[end + 2] == tail[z + 2] && shown[end + 3] == tail[z + 3]);
        }
        assert(shown.subrange(end + 5, end + 7) =~= two(distance(ts.tz_minute_offset as int))) by {
            assert(shown[end + 5] == tail[z + 5] && shown[end + 6] == tail[z + 6]);
        }
        assert(shown[end + 1] == tail[z + 1]);
    }
}

/// A number is long exactly when more than nine digits stand in a row.
pub proof fn law_long_numbers_have_ten_digits(text: Seq<char>)
    ensures
        has_long_number(text) <==> exists|from: int, to: int|
            0 <= from && to <= text.len() && to - from > 9 && #[trigger] text::all_digits(
                text.subrange(from, to),
            ),
{
    if has_long_number(text) {
        let at = choose|at: int| #[trigger] runs_from(text, at);
        let run = text.subrange(at, at + 10);
        assert forall|i: int| 0 <= i < run.len() implies '0' <= #[trigger] run[i] <= '9' by {
            assert(text::is_digit(text[at + i]));
        }
        assert(text::all_digits(text.subrange(at, at + 10)));
    }
    if exists|from: int, to: int|
        0 <= from && to <= text.len() && to - from > 9 && #[trigger] text::all_digits(
            text.subrange(from, to),
        ) {
        let (from, to) = choose|from: int, to: int|
            0 <= from && to <= text.len() && to - from > 9 && #[trigger] text::all_digits(
                text.subrange(from, to),
            );
        let run = text.subrange(from, to);
        assert forall|j: int| from <= j < from + 10 implies text::is_digit(#[trigger] text[j]) by {
            assert(run[j - from] == text[j]);
        }
        assert(runs_from(text, from));
    }
}

} // verus!
