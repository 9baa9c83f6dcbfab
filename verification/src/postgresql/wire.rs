//! PostgreSQL's binary scalar formats.

use crate::calendar::Moment;
use crate::text;
use tokio_postgres::types::{FromSql, Type};
use vstd::prelude::*;

verus! {

/// The number that bytes spell, most significant first.
pub open spec fn big_endian(bytes: Seq<u8>) -> nat
    decreases bytes.len(),
{
    if bytes.len() == 0 {
        0
    } else {
        big_endian(bytes.drop_last()) * 256 + bytes.last() as nat
    }
}

/// Eight bytes read as two's complement.
pub open spec fn signed64(bytes: Seq<u8>) -> int {
    let n = big_endian(bytes) as int;
    if n >= 0x8000_0000_0000_0000 {
        n - 0x1_0000_0000_0000_0000
    } else {
        n
    }
}

/// Four bytes read as two's complement.
pub open spec fn signed32(bytes: Seq<u8>) -> int {
    let n = big_endian(bytes) as int;
    if n >= 0x8000_0000 {
        n - 0x1_0000_0000
    } else {
        n
    }
}

/// Two bytes read as two's complement.
pub open spec fn signed16(bytes: Seq<u8>) -> int {
    let n = big_endian(bytes) as int;
    if n >= 0x8000 {
        n - 0x1_0000
    } else {
        n
    }
}

/// A BOOL: one byte, false exactly when it is zero.
pub open spec fn bool_value(raw: Seq<u8>) -> Option<bool> {
    if raw.len() == 1 {
        Some(raw[0] != 0)
    } else {
        None
    }
}

/// `bool::from_sql`: reads a BOOL.
#[verifier::external_body]
pub(crate) fn read_bool(raw: &[u8]) -> (r: Option<bool>)
    ensures
        r == bool_value(raw@),
{
    bool::from_sql(&Type::BOOL, raw).ok()
}

/// An INT2: two bytes.
pub open spec fn int2_value(raw: Seq<u8>) -> Option<int> {
    if raw.len() == 2 {
        Some(signed16(raw))
    } else {
        None
    }
}

/// `i16::from_sql`: reads an INT2.
#[verifier::external_body]
pub(crate) fn read_int2(raw: &[u8]) -> (r: Option<i16>)
    ensures
        r matches Some(n) ==> int2_value(raw@) == Some(n as int),
        r is None ==> int2_value(raw@) is None,
{
    i16::from_sql(&Type::INT2, raw).ok()
}

/// An INT4: four bytes.
pub open spec fn int4_value(raw: Seq<u8>) -> Option<int> {
    if raw.len() == 4 {
        Some(signed32(raw))
    } else {
        None
    }
}

/// `i32::from_sql`: reads an INT4.
#[verifier::external_body]
pub(crate) fn read_int4(raw: &[u8]) -> (r: Option<i32>)
    ensures
        r matches Some(n) ==> int4_value(raw@) == Some(n as int),
        r is None ==> int4_value(raw@) is None,
{
    i32::from_sql(&Type::INT4, raw).ok()
}

/// An INT8: eight bytes.
pub open spec fn int8_value(raw: Seq<u8>) -> Option<int> {
    if raw.len() == 8 {
        Some(signed64(raw))
    } else {
        None
    }
}

/// `i64::from_sql`: reads an INT8.
#[verifier::external_body]
pub(crate) fn read_int8(raw: &[u8]) -> (r: Option<i64>)
    ensures
        r matches Some(n) ==> int8_value(raw@) == Some(n as int),
        r is None ==> int8_value(raw@) is None,
{
    i64::from_sql(&Type::INT8, raw).ok()
}

/// Two lower-case hexadecimal digits for each byte.
pub open spec fn hex(bytes: Seq<u8>) -> Seq<char>
    decreases bytes.len(),
{
    if bytes.len() == 0 {
        Seq::empty()
    } else {
        hex(bytes.drop_last()) + seq![
            hex_digit(bytes.last() as int / 16),
            hex_digit(bytes.last() as int % 16),
        ]
    }
}

/// A lower-case hexadecimal digit.
pub open spec fn hex_digit(d: int) -> char {
    if d < 10 {
        (48 + d) as char
    } else {
        (87 + d) as char
    }
}

/// A UUID: sixteen bytes, written in hyphenated lower-case hexadecimal.
pub open spec fn uuid_text(raw: Seq<u8>) -> Option<Seq<char>> {
    if raw.len() == 16 {
        Some(
            hex(raw.subrange(0, 4)) + seq!['-'] + hex(raw.subrange(4, 6)) + seq!['-'] + hex(
                raw.subrange(6, 8),
            ) + seq!['-'] + hex(raw.subrange(8, 10)) + seq!['-'] + hex(raw.subrange(10, 16)),
        )
    } else {
        None
    }
}

/// `uuid::Uuid::from_sql` and its `Display`: the text of a UUID.
#[verifier::external_body]
pub(crate) fn read_uuid(raw: &[u8]) -> (r: Option<String>)
    ensures
        match r {
            Some(text) => uuid_text(raw@) == Some(text@),
            None => uuid_text(raw@) is None,
        },
{
    uuid::Uuid::from_sql(&Type::UUID, raw).ok().map(|value| value.to_string())
}

/// The text of a DATE, if the calendar reaches it.
pub uninterp spec fn date_text(raw: Seq<u8>) -> Option<Seq<char>>;

/// `chrono::NaiveDate::from_sql` and its `Display`: the text of a DATE, which is four
/// bytes.
#[verifier::external_body]
pub(crate) fn read_date(raw: &[u8]) -> (r: Option<String>)
    ensures
        match r {
            Some(text) => date_text(raw@) == Some(text@),
            None => date_text(raw@) is None,
        },
        raw@.len() != 4 ==> r is None,
{
    chrono::NaiveDate::from_sql(&Type::DATE, raw).ok().map(|value| value.to_string())
}

/// The moment `micros` microseconds after the start of the year 2000.
pub open spec fn moment_after_2000(micros: int) -> Moment {
    Moment {
        secs: (946_684_800 + micros / 1_000_000) as i64,
        nanos: (micros % 1_000_000 * 1_000) as u32,
    }
}

/// Whether a result is that of reading a TIMESTAMP or TIMESTAMPTZ: eight bytes that
/// count microseconds from the start of the year 2000, as far as the calendar reaches,
/// which is more than 250,000 years either way.
pub open spec fn reads_timestamp(result: Option<Moment>, raw: Seq<u8>) -> bool {
    &&& result matches Some(moment) ==> raw.len() == 8 && moment == moment_after_2000(signed64(raw))
    &&& raw.len() == 8 && -8_000_000_000_000_000_000 <= signed64(raw) <= 8_000_000_000_000_000_000
        ==> result is Some
}

/// The moment of a TIMESTAMP, if the calendar reaches it.
pub uninterp spec fn timestamp_moment(raw: Seq<u8>) -> Option<Moment>;

/// `chrono::NaiveDateTime::from_sql`: the moment of a TIMESTAMP, read as UTC.
#[verifier::external_body]
pub(crate) fn read_timestamp(raw: &[u8]) -> (r: Option<Moment>)
    ensures
        r == timestamp_moment(raw@),
        reads_timestamp(r, raw@),
{
    chrono::NaiveDateTime::from_sql(&Type::TIMESTAMP, raw).ok().map(|time| time.and_utc()).map(
        |time| Moment { secs: time.timestamp(), nanos: time.timestamp_subsec_nanos() },
    )
}

/// The moment of a TIMESTAMPTZ, if the calendar reaches it.
pub uninterp spec fn timestamptz_moment(raw: Seq<u8>) -> Option<Moment>;

/// `chrono::DateTime::<Utc>::from_sql`: the moment of a TIMESTAMPTZ.
#[verifier::external_body]
pub(crate) fn read_timestamptz(raw: &[u8]) -> (r: Option<Moment>)
    ensures
        r == timestamptz_moment(raw@),
        reads_timestamp(r, raw@),
{
    chrono::DateTime::<chrono::Utc>::from_sql(&Type::TIMESTAMPTZ, raw).ok().map(
        |time| Moment { secs: time.timestamp(), nanos: time.timestamp_subsec_nanos() },
    )
}

/// Reads four bytes, most significant first.
pub fn read_word(raw: &[u8], at: usize) -> (n: u32)
    requires
        at + 4 <= raw@.len(),
    ensures
        n == big_endian(raw@.subrange(at as int, at + 4)),
{
    let total: usize = raw.len();
    let ghost part = raw@.subrange(at as int, at + 4);
    proof {
        reveal_with_fuel(big_endian, 5);
        let p3 = part.drop_last();
        let p2 = p3.drop_last();
        let p1 = p2.drop_last();
        assert(p1.drop_last() =~= Seq::<u8>::empty());
        assert(part[0] == raw@[at as int] && part[1] == raw@[at + 1] && part[2] == raw@[at + 2]
            && part[3] == raw@[at + 3]);
        assert(p3.last() == part[2]);
        assert(p2.last() == part[1]);
        assert(p1.last() == part[0]);
    }
    raw[at] as u32 * 0x100_0000 + raw[at + 1] as u32 * 0x1_0000 + raw[at + 2] as u32 * 0x100 + raw[at
        + 3] as u32
}

proof fn lemma_big_endian_append(a: Seq<u8>, b: Seq<u8>)
    requires
        b.len() == 4,
    ensures
        big_endian(a + b) == big_endian(a) * 0x1_0000_0000 + big_endian(b),
{
    reveal_with_fuel(big_endian, 5);
    let b3 = b.drop_last();
    let b2 = b3.drop_last();
    let b1 = b2.drop_last();
    assert(b1.drop_last() =~= Seq::<u8>::empty());
    assert((a + b).drop_last() =~= a + b3);
    assert((a + b3).drop_last() =~= a + b2);
    assert((a + b2).drop_last() =~= a + b1);
    assert((a + b1).drop_last() =~= a);
    assert((a + b).last() == b.last());
    assert((a + b3).last() == b3.last());
    assert((a + b2).last() == b2.last());
    assert((a + b1).last() == b1.last());
}

/// Reads eight bytes, most significant first.
pub fn read_long(raw: &[u8], at: usize) -> (n: u64)
    requires
        at + 8 <= raw@.len(),
    ensures
        n == big_endian(raw@.subrange(at as int, at + 8)),
{
    let total: usize = raw.len();
    let high: u32 = read_word(raw, at);
    let low: u32 = read_word(raw, at + 4);
    proof {
        let a = raw@.subrange(at as int, at + 4);
        let b = raw@.subrange(at + 4, at + 8);
        lemma_big_endian_append(a, b);
        assert(a + b =~= raw@.subrange(at as int, at + 8));
    }
    high as u64 * 0x1_0000_0000 + low as u64
}

/// Four bytes read as two's complement.
pub fn as_signed32(n: u32) -> (r: i64)
    ensures
        r == if n >= 0x8000_0000u32 {
            n - 0x1_0000_0000
        } else {
            n as int
        },
{
    if n >= 0x8000_0000 {
        n as i64 - 0x1_0000_0000
    } else {
        n as i64
    }
}

/// Eight bytes read as two's complement.
pub fn as_signed64(n: u64) -> (r: i64)
    ensures
        r == if n >= 0x8000_0000_0000_0000u64 {
            n - 0x1_0000_0000_0000_0000
        } else {
            n as int
        },
{
    if n >= 0x8000_0000_0000_0000 {
        (n as i128 - 0x1_0000_0000_0000_0000) as i64
    } else {
        n as i64
    }
}

/// Bytes spell a number most significant first: each counts 256 times the next.
pub proof fn law_bytes_count_most_significant_first(bytes: Seq<u8>)
    ensures
        bytes.len() == 1 ==> big_endian(bytes) == bytes[0],
        bytes.len() == 2 ==> big_endian(bytes) == bytes[0] * 0x100 + bytes[1],
        bytes.len() == 4 ==> big_endian(bytes) == bytes[0] * 0x100_0000 + bytes[1] * 0x1_0000
            + bytes[2] * 0x100 + bytes[3],
        bytes.len() == 8 ==> big_endian(bytes) == bytes[0] * 0x100_0000_0000_0000 + bytes[1]
            * 0x1_0000_0000_0000 + bytes[2] * 0x100_0000_0000 + bytes[3] * 0x1_0000_0000 + bytes[4]
            * 0x100_0000 + bytes[5] * 0x1_0000 + bytes[6] * 0x100 + bytes[7],
{
    reveal_with_fuel(big_endian, 9);
}

/// An INT2 is its two bytes, the first counting 256 times the second, and below zero by 2^16
/// where the first is 128 or more.
pub proof fn law_int2_is_read_from_its_bytes(raw: Seq<u8>)
    ensures
        int2_value(raw) is Some <==> raw.len() == 2,
        int2_value(raw) matches Some(n) ==> -0x8000 <= n < 0x8000 && n == raw[0] * 0x100 + raw[1]
            - if raw[0] >= 0x80 {
            0x1_0000int
        } else {
            0int
        },
{
    law_bytes_count_most_significant_first(raw);
}

/// An INT4 is its four bytes, each counting 256 times the next, and below zero by 2^32 where
/// the first is 128 or more.
pub proof fn law_int4_is_read_from_its_bytes(raw: Seq<u8>)
    ensures
        int4_value(raw) is Some <==> raw.len() == 4,
        int4_value(raw) matches Some(n) ==> -0x8000_0000 <= n < 0x8000_0000 && n == raw[0]
            * 0x100_0000 + raw[1] * 0x1_0000 + raw[2] * 0x100 + raw[3] - if raw[0] >= 0x80 {
            0x1_0000_0000int
        } else {
            0int
        },
{
    law_bytes_count_most_significant_first(raw);
}

/// An INT8 is its eight bytes, each counting 256 times the next, and below zero by 2^64 where
/// the first is 128 or more.
pub proof fn law_int8_is_read_from_its_bytes(raw: Seq<u8>)
    ensures
        int8_value(raw) is Some <==> raw.len() == 8,
        int8_value(raw) matches Some(n) ==> -0x8000_0000_0000_0000 <= n < 0x8000_0000_0000_0000 && n
            == raw[0] * 0x100_0000_0000_0000 + raw[1] * 0x1_0000_0000_0000 + raw[2]
            * 0x100_0000_0000 + raw[3] * 0x1_0000_0000 + raw[4] * 0x100_0000 + raw[5] * 0x1_0000
            + raw[6] * 0x100 + raw[7] - if raw[0] >= 0x80 {
            0x1_0000_0000_0000_0000int
        } else {
            0int
        },
{
    law_bytes_count_most_significant_first(raw);
}

/// A BOOL is one byte, and true unless that is zero.
pub proof fn law_bool_is_one_byte(raw: Seq<u8>)
    ensures
        bool_value(raw) is None <==> raw.len() != 1,
        bool_value(raw) == Some(false) <==> raw == seq![0u8],
{
    if raw.len() == 1 && raw[0] == 0 {
        assert(raw =~= seq![0u8]);
    }
}

/// The value of a lower-case hexadecimal digit.
pub open spec fn hex_value(c: char) -> int {
    if '0' <= c <= '9' {
        c as int - '0' as int
    } else if 'a' <= c <= 'f' {
        c as int - 'a' as int + 10
    } else {
        -1
    }
}

/// Whether two hexadecimal digits that stand for a byte are at a place of a text.
pub open spec fn shows_byte(text: Seq<char>, at: int, byte: u8) -> bool {
    &&& 0 <= at
    &&& at + 1 < text.len()
    &&& hex_value(text[at]) >= 0
    &&& hex_value(text[at + 1]) >= 0
    &&& hex_value(text[at]) * 16 + hex_value(text[at + 1]) == byte
}

/// Hexadecimal text has two lower-case digits for each byte, in order, which stand for it.
pub proof fn law_hex_stands_for_its_bytes(bytes: Seq<u8>)
    ensures
        hex(bytes).len() == 2 * bytes.len(),
        forall|i: int| 0 <= i < bytes.len() ==> shows_byte(hex(bytes), 2 * i, #[trigger] bytes[i]),
    decreases bytes.len(),
{
    if bytes.len() > 0 {
        let less = bytes.drop_last();
        law_hex_stands_for_its_bytes(less);
        assert forall|i: int| 0 <= i < bytes.len() implies shows_byte(
            hex(bytes),
            2 * i,
            #[trigger] bytes[i],
        ) by {
            if i < less.len() {
                assert(shows_byte(hex(less), 2 * i, less[i]));
                assert(hex(bytes)[2 * i] == hex(less)[2 * i]);
                assert(hex(bytes)[2 * i + 1] == hex(less)[2 * i + 1]);
            } else {
                let byte = bytes[i] as int;
                assert(hex(bytes)[2 * i] == hex_digit(byte / 16));
                assert(hex(bytes)[2 * i + 1] == hex_digit(byte % 16));
            }
        }
    }
}

/// Where the digits of a byte of a UUID begin in its text.
pub open spec fn uuid_place(i: int) -> int {
    2 * i + if i < 4 {
        0int
    } else if i < 6 {
        1
    } else if i < 8 {
        2
    } else if i < 10 {
        3
    } else {
        4
    }
}

/// A UUID's text is thirty-six characters: hyphens after the eighth, the thirteenth, the
/// eighteenth and the twenty-third, and in between the digits of its sixteen bytes, in order.
pub proof fn law_uuid_shows_its_bytes(raw: Seq<u8>)
    ensures
        uuid_text(raw) is Some <==> raw.len() == 16,
        uuid_text(raw) matches Some(text) ==> text.len() == 36 && text[8] == '-' && text[13] == '-'
            && text[18] == '-' && text[23] == '-' && forall|i: int|
            0 <= i < 16 ==> shows_byte(text, uuid_place(i), #[trigger] raw[i]),
{
    if raw.len() == 16 {
        let text = uuid_text(raw)->0;
        let a = raw.subrange(0, 4);
        let b = raw.subrange(4, 6);
        let c = raw.subrange(6, 8);
        let d = raw.subrange(8, 10);
        let e = raw.subrange(10, 16);
        law_hex_stands_for_its_bytes(a);
        law_hex_stands_for_its_bytes(b);
        law_hex_stands_for_its_bytes(c);
        law_hex_stands_for_its_bytes(d);
        law_hex_stands_for_its_bytes(e);
        assert forall|i: int| 0 <= i < 16 implies shows_byte(
            text,
            uuid_place(i),
            #[trigger] raw[i],
        ) by {
            let at = uuid_place(i);
            if i < 4 {
                assert(shows_byte(hex(a), 2 * i, a[i]));
                assert(text[at] == hex(a)[2 * i] && text[at + 1] == hex(a)[2 * i + 1]);
            } else if i < 6 {
                let k = i - 4;
                assert(shows_byte(hex(b), 2 * k, b[k]));
                assert(text[at] == hex(b)[2 * k] && text[at + 1] == hex(b)[2 * k + 1]);
            } else if i < 8 {
                let k = i - 6;
                assert(shows_byte(hex(c), 2 * k, c[k]));
                assert(text[at] == hex(c)[2 * k] && text[at + 1] == hex(c)[2 * k + 1]);
            } else if i < 10 {
                let k = i - 8;
                assert(shows_byte(hex(d), 2 * k, d[k]));
                assert(text[at] == hex(d)[2 * k] && text[at + 1] == hex(d)[2 * k + 1]);
            } else {
                let k = i - 10;
                assert(shows_byte(hex(e), 2 * k, e[k]));
                assert(text[at] == hex(e)[2 * k] && text[at + 1] == hex(e)[2 * k + 1]);
            }
        }
    }
}

/// A moment counted from the start of the year 2000 is as many microseconds after it, whatever
/// their sign, and has its fraction of a second below one.
pub proof fn law_moments_are_counted_from_2000(micros: int)
    requires
        -0x8000_0000_0000_0000 <= micros < 0x8000_0000_0000_0000,
    ensures
        ({
            let moment = moment_after_2000(micros);
            &&& moment.nanos < 1_000_000_000
            &&& moment.secs as int * 1_000_000_000 + moment.nanos == (946_684_800 * 1_000_000
                + micros) * 1_000
        }),
{
}

} // verus!
