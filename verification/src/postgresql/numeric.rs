//! Exact decimal text of PostgreSQL's binary NUMERIC.
//!
//! The wire form stores base-10000 digits, a weight (the power of 10000 of the
//! first digit), a sign and a decimal scale. Digits before the first and after
//! the last stored one are zero.

use crate::postgresql::error::PgError;
use crate::text::{append_decimal, append_low_digits, append_text, chars_of, text_of};
use crate::text;
use vstd::prelude::*;

verus! {

/// The largest scale a NUMERIC can have.
pub const MAX_SCALE: u16 = 16383;

/// The big-endian sixteen-bit word at byte `at`.
pub open spec fn word(raw: Seq<u8>, at: int) -> int {
    raw[at] as int * 256 + raw[at + 1] as int
}

/// A sixteen-bit word read as two's complement.
pub open spec fn signed_word(raw: Seq<u8>, at: int) -> int {
    if word(raw, at) >= 0x8000 {
        word(raw, at) - 0x10000
    } else {
        word(raw, at)
    }
}

/// The decoded parts of a NUMERIC.
pub struct Numeric {
    pub negative: bool,
    pub weight: int,
    pub scale: nat,
    pub digits: Seq<int>,
}

/// The parts that the wire form holds.
pub open spec fn parts(raw: Seq<u8>) -> Numeric {
    Numeric {
        negative: word(raw, 4) == 0x4000,
        weight: signed_word(raw, 2),
        scale: word(raw, 6) as nat,
        digits: Seq::new(word(raw, 0) as nat, |i: int| word(raw, 8 + 2 * i)),
    }
}

/// The base-10000 digit at an index from the first stored one.
pub open spec fn digit_at(digits: Seq<int>, index: int) -> int {
    if 0 <= index < digits.len() {
        digits[index]
    } else {
        0
    }
}

/// Digits `first..first + count`, four decimal digits each.
pub open spec fn groups(digits: Seq<int>, first: int, count: nat) -> Seq<char>
    decreases count,
{
    if count == 0 {
        Seq::empty()
    } else {
        groups(digits, first, (count - 1) as nat) + text::low_digits(
            digit_at(digits, first + count - 1) as nat,
            4,
        )
    }
}

/// How many base-10000 digits cover `scale` decimal places.
pub open spec fn fraction_groups(scale: nat) -> nat {
    ((scale + 3) / 4) as nat
}

/// The text before the decimal point.
pub open spec fn integer_text(n: Numeric) -> Seq<char> {
    if n.weight < 0 {
        seq!['0']
    } else {
        text::decimal(digit_at(n.digits, 0) as nat) + groups(n.digits, 1, n.weight as nat)
    }
}

/// Exactly `scale` decimal places.
pub open spec fn fraction_text(n: Numeric) -> Seq<char> {
    groups(n.digits, n.weight + 1, fraction_groups(n.scale)).take(n.scale as int)
}

/// The decimal text of a NUMERIC: every digit down to its scale and no more.
pub open spec fn numeric_text(n: Numeric) -> Seq<char> {
    let sign = if n.negative {
        seq!['-']
    } else {
        Seq::empty()
    };
    let fraction = if n.scale > 0 {
        seq!['.'] + fraction_text(n)
    } else {
        Seq::empty()
    };
    sign + integer_text(n) + fraction
}

/// The bytes the text may take, counted before it is built.
pub open spec fn text_bound(n: Numeric) -> int {
    let integers = if n.weight < 0 {
        1
    } else {
        n.weight + 1
    };
    integers * 4 + n.scale + 2
}

/// Whether the header describes the bytes: all of them, a finite number, a legal scale.
pub open spec fn well_formed(raw: Seq<u8>) -> bool {
    &&& raw.len() >= 8
    &&& raw.len() == 8 + 2 * word(raw, 0)
    &&& (word(raw, 4) == 0 || word(raw, 4) == 0x4000)
    &&& word(raw, 6) <= MAX_SCALE
}

/// What decoding gives: malformed headers first, then the bound, then the digits.
pub open spec fn numeric_result(raw: Seq<u8>, limit: u64) -> Result<Seq<char>, PgError> {
    if !well_formed(raw) {
        Err(PgError::Conversion)
    } else if text_bound(parts(raw)) > limit {
        Err(PgError::RowTooLarge)
    } else if exists|i: int|
        0 <= i < parts(raw).digits.len() && #[trigger] parts(raw).digits[i] > 9999 {
        Err(PgError::Conversion)
    } else {
        Ok(numeric_text(parts(raw)))
    }
}

fn read_word(raw: &[u8], at: usize) -> (n: u16)
    requires
        at + 1 < raw@.len(),
    ensures
        n == word(raw@, at as int),
{
    raw[at] as u16 * 256 + raw[at + 1] as u16
}

/// The stored base-10000 digits, or `None` when one is out of range.
fn read_digits(raw: &[u8], count: usize) -> (r: Option<Vec<u16>>)
    requires
        raw@.len() == 8 + 2 * count,
    ensures
        r matches Some(digits) ==> {
            &&& digits@.len() == count
            &&& forall|i: int|
                0 <= i < count ==> #[trigger] digits@[i] == word(raw@, 8 + 2 * i) && digits@[i]
                    <= 9999
        },
        r is None ==> exists|i: int| 0 <= i < count && #[trigger] word(raw@, 8 + 2 * i) > 9999,
{
    let total: usize = raw.len();
    let mut digits: Vec<u16> = Vec::new();
    let mut i: usize = 0;
    while i < count
        invariant
            i <= count,
            raw@.len() == 8 + 2 * count,
            raw@.len() == total,
            digits@.len() == i,
            forall|j: int|
                0 <= j < i ==> #[trigger] digits@[j] == word(raw@, 8 + 2 * j) && digits@[j] <= 9999,
        decreases count - i,
    {
        let digit: u16 = read_word(raw, 8 + 2 * i);
        if digit > 9999 {
            assert(word(raw@, 8 + 2 * (i as int)) > 9999);
            return None;
        }
        digits.push(digit);
        i += 1;
    }
    Some(digits)
}

/// Appends digits `first..first + count`, four decimal digits each.
fn append_groups(
    out: &mut String,
    digits: &Vec<u16>,
    first: i64,
    count: usize,
)
    requires
        -0x10000 <= first <= 0x10000,
        count <= 0x10000,
    ensures
        final(out)@ == old(out)@ + groups(
            digits@.map_values(|d: u16| d as int),
            first as int,
            count as nat,
        ),
{
    let ghost before = out@;
    let ghost all = digits@.map_values(|d: u16| d as int);
    assert(out@ =~= before + groups(all, first as int, 0));
    let mut i: usize = 0;
    while i < count
        invariant
            i <= count <= 0x10000,
            -0x10000 <= first <= 0x10000,
            all == digits@.map_values(|d: u16| d as int),
            out@ == before + groups(all, first as int, i as nat),
        decreases count - i,
    {
        let index: i64 = first + i as i64;
        let digit: u16 = if index >= 0 && (index as usize) < digits.len() {
            digits[index as usize]
        } else {
            0
        };
        assert(digit == digit_at(all, first + i));
        append_low_digits(out, digit as u64, 4);
        assert(out@ =~= before + groups(all, first as int, (i + 1) as nat));
        i += 1;
    }
}

/// Decodes a binary NUMERIC into decimal text without rounding.
///
/// Fails on malformed or non-finite input, and when the text could take more
/// than `limit` bytes; nothing is built in that case.
pub fn numeric(raw: &[u8], limit: u64) -> (r: Result<String, PgError>)
    ensures
        match r {
            Ok(text) => numeric_result(raw@, limit) == Ok::<Seq<char>, PgError>(text@),
            Err(error) => numeric_result(raw@, limit) == Err::<Seq<char>, PgError>(error),
        },
{
    if raw.len() < 8 {
        return Err(PgError::Conversion);
    }
    let count: usize = read_word(raw, 0) as usize;
    let weight_word: u16 = read_word(raw, 2);
    let weight: i64 = if weight_word >= 0x8000 {
        weight_word as i64 - 0x10000
    } else {
        weight_word as i64
    };
    let sign: u16 = read_word(raw, 4);
    let scale: usize = read_word(raw, 6) as usize;
    if raw.len() != 8 + count * 2 || !(sign == 0 || sign == 0x4000) || scale > 16383 {
        return Err(PgError::Conversion);
    }
    let integers: usize = if weight < 0 {
        1
    } else {
        (weight + 1) as usize
    };
    let capacity: usize = integers * 4 + scale + 2;
    if capacity as u64 > limit {
        return Err(PgError::RowTooLarge);
    }
    let ghost n = parts(raw@);
    let digits = match read_digits(raw, count) {
        Some(digits) => digits,
        None => {
            proof {
                let i = choose|i: int| 0 <= i < count && #[trigger] word(raw@, 8 + 2 * i) > 9999;
                assert(n.digits[i] > 9999);
            }
            return Err(PgError::Conversion);
        },
    };
    let ghost all = digits@.map_values(|d: u16| d as int);
    assert(all =~= n.digits);
    let mut value = String::new();
    if sign == 0x4000 {
        value.push('-');
    }
    let ghost sign_text = value@;
    assert(sign_text =~= if n.negative {
        seq!['-']
    } else {
        Seq::<char>::empty()
    });
    if weight < 0 {
        value.push('0');
    } else {
        let first: u16 = if digits.len() > 0 {
            digits[0]
        } else {
            0
        };
        assert(first == digit_at(all, 0));
        append_decimal(&mut value, first as u64);
        append_groups(&mut value, &digits, 1, weight as usize);
    }
    assert(value@ =~= sign_text + integer_text(n));
    if scale > 0 {
        value.push('.');
        let mut fraction = String::new();
        append_groups(&mut fraction, &digits, weight + 1, (scale + 3) / 4);
        assert(fraction@ =~= groups(n.digits, n.weight + 1, fraction_groups(n.scale)));
        proof {
            lemma_groups_len(n.digits, n.weight + 1, fraction_groups(n.scale));
        }
        let places = chars_of(fraction.as_str());
        let kept = text_of(&places, 0, scale);
        assert(kept@ =~= fraction_text(n));
        append_text(&mut value, kept.as_str());
    }
    assert(value@ =~= numeric_text(n));
    Ok(value)
}

proof fn lemma_low_digits_len(n: nat, width: nat)
    ensures
        text::low_digits(n, width).len() == width,
    decreases width,
{
    if width > 0 {
        lemma_low_digits_len(n / 10, (width - 1) as nat);
    }
}

proof fn lemma_groups_len(digits: Seq<int>, first: int, count: nat)
    ensures
        groups(digits, first, count).len() == 4 * count,
    decreases count,
{
    if count > 0 {
        lemma_groups_len(digits, first, (count - 1) as nat);
        lemma_low_digits_len(digit_at(digits, first + count - 1) as nat, 4);
    }
}

/// The number that a run of decimal digits denotes.
pub open spec fn read(text: Seq<char>) -> int
    decreases text.len(),
{
    if text.len() == 0 {
        0
    } else {
        read(text.drop_last()) * 10 + (text.last() as int - 48)
    }
}

/// Powers of ten.
pub open spec fn ten_to(k: nat) -> int
    decreases k,
{
    if k == 0 {
        1
    } else {
        10 * ten_to((k - 1) as nat)
    }
}

/// The number that base-10000 digits `first..first + count` denote.
pub open spec fn magnitude(digits: Seq<int>, first: int, count: nat) -> int
    decreases count,
{
    if count == 0 {
        0
    } else {
        magnitude(digits, first, (count - 1) as nat) * 10000 + digit_at(digits, first + count - 1)
    }
}

/// How many base-10000 digits stand before the decimal point.
pub open spec fn integer_groups(n: Numeric) -> nat {
    if n.weight < 0 {
        0
    } else {
        (n.weight + 1) as nat
    }
}

/// The text is exact: its digits, read without the point, are the stored number
/// counted in units of the last decimal place, with no rounding.
///
/// What a scale cuts off below its last place is dropped, never carried.
pub proof fn law_numeric_text_is_exact(n: Numeric)
    requires
        forall|i: int| 0 <= i < n.digits.len() ==> 0 <= #[trigger] n.digits[i] <= 9999,
    ensures
        ({
            let whole = integer_groups(n);
            let places = fraction_groups(n.scale);
            let stored = magnitude(n.digits, n.weight + 1 - whole, whole + places);
            let unit = ten_to((4 * places - n.scale) as nat);
            &&& fraction_text(n).len() == n.scale
            &&& read(integer_text(n) + fraction_text(n)) == stored / unit
        }),
{
    let whole = integer_groups(n);
    let places = fraction_groups(n.scale);
    let first = n.weight + 1 - whole;
    let all = groups(n.digits, n.weight + 1, places);
    lemma_groups_len(n.digits, n.weight + 1, places);
    lemma_groups_read(n.digits, n.weight + 1, places);
    lemma_integer_read(n);
    let text = integer_text(n) + all;
    lemma_read_append(integer_text(n), all);
    lemma_magnitude_split(n.digits, first, whole, places);
    let kept = integer_text(n) + fraction_text(n);
    assert(kept =~= text.take(kept.len() as int));
    lemma_low_text_digits(n.digits, n.weight + 1, places);
    lemma_integer_digits(n);
    assert forall|i: int| 0 <= i < text.len() implies 48 <= #[trigger] text[i] as int <= 57 by {
        if i >= integer_text(n).len() {
            assert(text[i] == all[i - integer_text(n).len()]);
        } else {
            assert(text[i] == integer_text(n)[i]);
        }
    }
    lemma_read_take(text, kept.len());
}

proof fn lemma_ten_to_positive(k: nat)
    ensures
        ten_to(k) >= 1,
    decreases k,
{
    if k > 0 {
        lemma_ten_to_positive((k - 1) as nat);
    }
}

proof fn lemma_read_append(a: Seq<char>, b: Seq<char>)
    ensures
        read(a + b) == read(a) * ten_to(b.len()) + read(b),
    decreases b.len(),
{
    if b.len() == 0 {
        assert(a + b =~= a);
    } else {
        lemma_read_append(a, b.drop_last());
        assert((a + b).drop_last() =~= a + b.drop_last());
        let k = ten_to((b.len() - 1) as nat);
        assert((read(a) * k + read(b.drop_last())) * 10 == read(a) * (10 * k) + read(b.drop_last())
            * 10) by (nonlinear_arith);
    }
}

proof fn lemma_read_take(text: Seq<char>, kept: nat)
    requires
        kept <= text.len(),
        forall|i: int| 0 <= i < text.len() ==> 48 <= #[trigger] text[i] as int <= 57,
    ensures
        read(text.take(kept as int)) == read(text) / ten_to((text.len() - kept) as nat),
        read(text) >= 0,
    decreases text.len(),
{
    if kept == text.len() {
        assert(text.take(kept as int) =~= text);
        if text.len() > 0 {
            lemma_read_take(text.drop_last(), (kept - 1) as nat);
        }
    } else {
        let less = text.drop_last();
        lemma_read_take(less, kept);
        assert(less.take(kept as int) =~= text.take(kept as int));
        let d = text.last() as int - 48;
        let k = ten_to((less.len() - kept) as nat);
        lemma_ten_to_positive((less.len() - kept) as nat);
        let m = read(less);
        assert((m * 10 + d) / 10 == m) by (nonlinear_arith)
            requires
                0 <= d <= 9,
                m >= 0,
        ;
        vstd::arithmetic::div_mod::lemma_div_denominator(m * 10 + d, 10, k);
    }
}

proof fn lemma_low_digits_read(n: nat, width: nat)
    requires
        n < ten_to(width),
    ensures
        read(text::low_digits(n, width)) == n,
        forall|i: int|
            0 <= i < width ==> 48 <= #[trigger] text::low_digits(n, width)[i] as int <= 57,
    decreases width,
{
    lemma_low_digits_len(n, width);
    if width > 0 {
        lemma_low_digits_read(n / 10, (width - 1) as nat);
        lemma_low_digits_len(n / 10, (width - 1) as nat);
        assert(text::low_digits(n, width).drop_last() =~= text::low_digits(n / 10, (width - 1) as nat));
    }
}

proof fn lemma_decimal_read(n: nat)
    ensures
        read(text::decimal(n)) == n,
        forall|i: int|
            0 <= i < text::decimal(n).len() ==> 48 <= #[trigger] text::decimal(n)[i] as int <= 57,
    decreases n,
{
    if n >= 10 {
        lemma_decimal_read(n / 10);
        assert(text::decimal(n).drop_last() =~= text::decimal(n / 10));
    } else {
        assert(text::decimal(n).drop_last() =~= Seq::<char>::empty());
        assert(read(text::decimal(n)) == n) by {
            reveal_with_fuel(read, 2);
        }
    }
}

proof fn lemma_groups_read(digits: Seq<int>, first: int, count: nat)
    requires
        forall|i: int| 0 <= i < digits.len() ==> 0 <= #[trigger] digits[i] <= 9999,
    ensures
        read(groups(digits, first, count)) == magnitude(digits, first, count),
    decreases count,
{
    if count > 0 {
        lemma_groups_read(digits, first, (count - 1) as nat);
        let d = digit_at(digits, first + count - 1) as nat;
        reveal_with_fuel(ten_to, 5);
        lemma_low_digits_read(d, 4);
        lemma_low_digits_len(d, 4);
        lemma_read_append(groups(digits, first, (count - 1) as nat), text::low_digits(d, 4));
    }
}

proof fn lemma_low_text_digits(digits: Seq<int>, first: int, count: nat)
    requires
        forall|i: int| 0 <= i < digits.len() ==> 0 <= #[trigger] digits[i] <= 9999,
    ensures
        forall|i: int|
            0 <= i < groups(digits, first, count).len() ==> 48 <= #[trigger] groups(
                digits,
                first,
                count,
            )[i] as int <= 57,
    decreases count,
{
    if count > 0 {
        let less = groups(digits, first, (count - 1) as nat);
        lemma_low_text_digits(digits, first, (count - 1) as nat);
        let d = digit_at(digits, first + count - 1) as nat;
        reveal_with_fuel(ten_to, 5);
        lemma_low_digits_read(d, 4);
        lemma_low_digits_len(d, 4);
        let all = groups(digits, first, count);
        assert(all == less + text::low_digits(d, 4));
        assert forall|i: int| 0 <= i < all.len() implies 48 <= #[trigger] all[i] as int <= 57 by {
            if i < less.len() {
                assert(all[i] == less[i]);
            } else {
                assert(all[i] == text::low_digits(d, 4)[i - less.len()]);
            }
        }
    }
}

proof fn lemma_integer_digits(n: Numeric)
    requires
        forall|i: int| 0 <= i < n.digits.len() ==> 0 <= #[trigger] n.digits[i] <= 9999,
    ensures
        forall|i: int|
            0 <= i < integer_text(n).len() ==> 48 <= #[trigger] integer_text(n)[i] as int <= 57,
{
    if n.weight >= 0 {
        lemma_decimal_read(digit_at(n.digits, 0) as nat);
        lemma_low_text_digits(n.digits, 1, n.weight as nat);
    }
}

proof fn lemma_integer_read(n: Numeric)
    requires
        forall|i: int| 0 <= i < n.digits.len() ==> 0 <= #[trigger] n.digits[i] <= 9999,
    ensures
        read(integer_text(n)) == magnitude(
            n.digits,
            n.weight + 1 - integer_groups(n),
            integer_groups(n),
        ),
{
    if n.weight < 0 {
        assert(integer_text(n).drop_last() =~= Seq::<char>::empty());
        assert(read(integer_text(n)) == 0) by {
            reveal_with_fuel(read, 2);
        }
    } else {
        let d = digit_at(n.digits, 0) as nat;
        lemma_decimal_read(d);
        lemma_groups_read(n.digits, 1, n.weight as nat);
        lemma_groups_len(n.digits, 1, n.weight as nat);
        lemma_read_append(text::decimal(d), groups(n.digits, 1, n.weight as nat));
        assert(magnitude(n.digits, 0, 1) == d) by {
            reveal_with_fuel(magnitude, 2);
        }
        lemma_magnitude_split(n.digits, 0, 1, n.weight as nat);
    }
}

proof fn lemma_magnitude_split(digits: Seq<int>, first: int, left: nat, right: nat)
    ensures
        magnitude(digits, first, left + right) == magnitude(digits, first, left) * ten_to(4 * right)
            + magnitude(digits, first + left, right),
    decreases right,
{
    if right > 0 {
        let less = (right - 1) as nat;
        lemma_magnitude_split(digits, first, left, less);
        let k = ten_to(4 * less);
        assert(ten_to(4 * right) == 10000 * k) by {
            reveal_with_fuel(ten_to, 5);
            assert(4 * right == 4 * less + 4);
        }
        let a = magnitude(digits, first, left);
        let b = magnitude(digits, first + left, less);
        assert((a * k + b) * 10000 == a * (10000 * k) + b * 10000) by (nonlinear_arith);
    }
}

/// The parts of a NUMERIC are read from its header: how many digits there are, the weight of
/// the first in two's complement, the sign, the scale, and then each digit, two bytes each and
/// most significant first.
pub proof fn law_numeric_header_is_read_in_order(raw: Seq<u8>)
    requires
        raw.len() >= 8,
        raw.len() == 8 + 2 * (raw[0] * 256 + raw[1]),
    ensures
        ({
            let n = parts(raw);
            &&& n.digits.len() == raw[0] * 256 + raw[1]
            &&& n.weight == raw[2] * 256 + raw[3] - if raw[2] >= 128 {
                65536int
            } else {
                0int
            }
            &&& n.negative <==> raw[4] == 0x40 && raw[5] == 0
            &&& n.scale == raw[6] * 256 + raw[7]
            &&& forall|i: int|
                0 <= i < n.digits.len() ==> #[trigger] n.digits[i] == raw[8 + 2 * i] * 256 + raw[9 + 2
                    * i]
        }),
{
}

/// A NUMERIC is decoded exactly when its header describes its bytes, is of a number and has a
/// legal scale, the text fits the limit, and each digit is below ten thousand.
pub proof fn law_numerics_are_decoded_or_refused(raw: Seq<u8>, limit: u64)
    ensures
        numeric_result(raw, limit) is Ok ==> raw.len() >= 8 && raw.len() == 8 + 2 * (raw[0] * 256
            + raw[1]) && ((raw[4] == 0 || raw[4] == 0x40) && raw[5] == 0) && raw[6] * 256 + raw[7]
            <= 16383 && (forall|i: int|
            0 <= i < parts(raw).digits.len() ==> #[trigger] parts(raw).digits[i] <= 9999),
        numeric_result(raw, limit) matches Ok(text) ==> text == numeric_text(parts(raw)),
        numeric_result(raw, limit) matches Err(error) ==> error is Conversion
            || error is RowTooLarge,
        numeric_result(raw, limit) == Err::<Seq<char>, PgError>(PgError::RowTooLarge) <==> (
        well_formed(raw) && text_bound(parts(raw)) > limit),
{
}

/// The text of a NUMERIC begins with a minus sign exactly when it is negative, and has a point
/// exactly when it has decimal places, with as many digits behind it as its scale says.
pub proof fn law_numeric_text_has_its_sign_and_scale(n: Numeric)
    requires
        forall|i: int| 0 <= i < n.digits.len() ==> 0 <= #[trigger] n.digits[i] <= 9999,
    ensures
        ({
            let text = numeric_text(n);
            let digits = integer_text(n);
            &&& digits.len() > 0
            &&& n.negative <==> text[0] == '-'
            &&& n.scale == 0 ==> text == if n.negative {
                seq!['-'] + digits
            } else {
                digits
            }
            &&& n.scale > 0 ==> text.len() > n.scale && text[text.len() - n.scale - 1] == '.'
        }),
{
    law_numeric_text_is_exact(n);
    lemma_integer_digits(n);
    let text = numeric_text(n);
    let digits = integer_text(n);
    text::law_decimal_stands_for_its_number(digit_at(n.digits, 0) as nat);
    assert(digits.len() > 0);
    assert(48 <= digits[0] as int <= 57);
    if n.negative {
        assert(text[0] == '-');
    } else {
        assert(text[0] == digits[0]);
    }
    if n.scale == 0 {
        if n.negative {
            assert(text =~= seq!['-'] + digits);
        } else {
            assert(text =~= digits);
        }
    } else {
        let at = text.len() - n.scale - 1;
        assert(fraction_text(n).len() == n.scale);
    }
}

/// What a text is bounded by is four digits for each digit before the point, or for one where
/// there is none, the decimal places, and a sign and a point.
pub proof fn law_text_is_bounded_by_its_digits(n: Numeric)
    ensures
        n.weight >= 0 ==> text_bound(n) == 4 * n.weight + n.scale + 6,
        n.weight < 0 ==> text_bound(n) == n.scale + 6,
{
}

/// As many base-10000 digits are read as cover the decimal places, and not one more.
pub proof fn law_decimal_places_are_covered(scale: nat)
    ensures
        4 * fraction_groups(scale) >= scale,
        scale > 0 ==> 4 * (fraction_groups(scale) - 1) < scale,
        scale == 0 ==> fraction_groups(scale) == 0,
{
}

} // verus!
