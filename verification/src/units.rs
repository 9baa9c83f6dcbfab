//! Sizes in bytes as operators write them.

use crate::text;
use crate::text::{chars_of, digit, same, text_of, trimmed, trimmed_start};
use vstd::prelude::*;

verus! {

/// How many digits a text starts with.
pub open spec fn leading_digits(text: Seq<char>) -> nat
    decreases text.len(),
{
    if text.len() > 0 && text::is_digit(text[0]) {
        1 + leading_digits(text.drop_first())
    } else {
        0
    }
}

/// The number that digits spell.
pub open spec fn number(digits: Seq<char>) -> nat
    decreases digits.len(),
{
    if digits.len() == 0 {
        0
    } else {
        number(digits.drop_last()) * 10 + (digits.last() as int - '0' as int) as nat
    }
}

/// How many bytes a unit stands for.
pub open spec fn unit_bytes(unit: Seq<char>) -> Option<nat> {
    if unit == ""@ || unit == "B"@ {
        Some(1)
    } else if unit == "KiB"@ {
        Some(1_024)
    } else if unit == "MiB"@ {
        Some(1_048_576)
    } else if unit == "GiB"@ {
        Some(1_073_741_824)
    } else {
        None
    }
}

/// The size that a text spells: a whole number and a unit, where the size fits 64 bits.
pub open spec fn size(written: Seq<char>) -> Option<nat> {
    let whole = text::trim(written);
    let count = leading_digits(whole) as int;
    match unit_bytes(text::trim_start(whole.skip(count))) {
        Some(unit) => if count > 0 && number(whole.take(count)) * unit <= u64::MAX {
            Some(number(whole.take(count)) * unit)
        } else {
            None
        },
        None => None,
    }
}

proof fn lemma_leading_digits(text: Seq<char>, count: int)
    requires
        0 <= count <= text.len(),
        forall|i: int| 0 <= i < count ==> text::is_digit(#[trigger] text[i]),
        count == text.len() || !text::is_digit(text[count]),
    ensures
        leading_digits(text) == count,
    decreases text.len(),
{
    if count > 0 {
        let rest = text.drop_first();
        assert forall|i: int| 0 <= i < count - 1 implies text::is_digit(#[trigger] rest[i]) by {
            assert(rest[i] == text[i + 1]);
        }
        lemma_leading_digits(rest, count - 1);
    }
}

proof fn lemma_number_grows(digits: Seq<char>, count: int)
    requires
        0 <= count <= digits.len(),
        forall|i: int| 0 <= i < digits.len() ==> text::is_digit(#[trigger] digits[i]),
    ensures
        number(digits.take(count)) <= number(digits),
    decreases digits.len(),
{
    if count == digits.len() {
        assert(digits.take(count) =~= digits);
    } else {
        assert(digits.drop_last().take(count) =~= digits.take(count));
        lemma_number_grows(digits.drop_last(), count);
    }
}

fn read_number(chars: &Vec<char>, count: usize) -> (r: Option<u64>)
    requires
        count <= chars@.len(),
        forall|i: int| 0 <= i < count ==> text::is_digit(#[trigger] chars@[i]),
    ensures
        match r {
            Some(n) => n == number(chars@.take(count as int)),
            None => number(chars@.take(count as int)) > u64::MAX,
        },
{
    let ghost digits = chars@.take(count as int);
    let mut n: u64 = 0;
    let mut i: usize = 0;
    assert(digits.take(0) =~= Seq::empty());
    while i < count
        invariant
            i <= count <= chars@.len(),
            digits == chars@.take(count as int),
            forall|j: int| 0 <= j < count ==> text::is_digit(#[trigger] chars@[j]),
            n == number(digits.take(i as int)),
        decreases count - i,
    {
        let ghost next = digits.take(i + 1);
        assert(next.drop_last() =~= digits.take(i as int));
        assert(next.last() == chars@[i as int]);
        let c: char = chars[i];
        let value: u64 = (c as u32 - '0' as u32) as u64;
        let grown: Option<u64> = match n.checked_mul(10) {
            Some(tens) => tens.checked_add(value),
            None => None,
        };
        match grown {
            Some(sum) => {
                n = sum;
            },
            None => {
                proof {
                    lemma_number_grows(digits, i + 1);
                }
                return None;
            },
        }
        i += 1;
    }
    assert(digits.take(count as int) =~= digits);
    Some(n)
}

fn unit_of(unit: &str) -> (r: Option<u64>)
    ensures
        match r {
            Some(n) => unit_bytes(unit@) == Some(n as nat),
            None => unit_bytes(unit@) is None,
        },
        r matches Some(n) ==> n >= 1,
{
    if same(unit, "") || same(unit, "B") {
        Some(1)
    } else if same(unit, "KiB") {
        Some(1_024)
    } else if same(unit, "MiB") {
        Some(1_048_576)
    } else if same(unit, "GiB") {
        Some(1_073_741_824)
    } else {
        None
    }
}

/// Reads a size.
pub fn byte_size(written: &str) -> (r: Option<u64>)
    ensures
        match r {
            Some(n) => size(written@) == Some(n as nat),
            None => size(written@) is None,
        },
{
    let whole = trimmed(written);
    let chars = chars_of(whole.as_str());
    let mut count: usize = 0;
    while count < chars.len() && digit(chars[count])
        invariant
            count <= chars@.len(),
            forall|i: int| 0 <= i < count ==> text::is_digit(#[trigger] chars@[i]),
        decreases chars.len() - count,
    {
        count += 1;
    }
    proof {
        lemma_leading_digits(chars@, count as int);
    }
    let rest = text_of(&chars, count, chars.len());
    assert(rest@ =~= chars@.skip(count as int));
    let unit: u64 = match unit_of(trimmed_start(rest.as_str()).as_str()) {
        Some(unit) => unit,
        None => {
            return None;
        },
    };
    if count == 0 {
        return None;
    }
    match read_number(&chars, count) {
        Some(n) => n.checked_mul(unit),
        None => {
            let ghost n = number(chars@.take(count as int)) as int;
            assert(n * unit > u64::MAX) by (nonlinear_arith)
                requires
                    n > u64::MAX,
                    unit >= 1,
            ;
            None
        },
    }
}

proof fn lemma_number_is_the_value(digits: Seq<char>)
    requires
        text::all_digits(digits),
    ensures
        number(digits) == text::value_of(digits),
    decreases digits.len(),
{
    if digits.len() > 0 {
        let less = digits.drop_last();
        assert forall|i: int| 0 <= i < less.len() implies '0' <= #[trigger] less[i] <= '9' by {
            assert(less[i] == digits[i]);
        }
        assert('0' <= digits[digits.len() - 1] <= '9');
        lemma_number_is_the_value(less);
    }
}

/// How many bytes each unit is: one for none and for `B`, and 1024 times the one before for
/// `KiB`, `MiB` and `GiB`.
pub proof fn law_units_are_binary()
    ensures
        unit_bytes(seq![]) == Some(1nat),
        unit_bytes(seq!['B']) == Some(1nat),
        unit_bytes(seq!['K', 'i', 'B']) == Some((1024 * 1) as nat),
        unit_bytes(seq!['M', 'i', 'B']) == Some((1024 * 1024) as nat),
        unit_bytes(seq!['G', 'i', 'B']) == Some((1024 * 1024 * 1024) as nat),
        forall|unit: Seq<char>|
            (#[trigger] unit_bytes(unit)) is Some ==> unit.len() == 0 || unit == seq!['B'] || (
            unit.len() == 3 && unit[1] == 'i' && unit[2] == 'B' && (unit[0] == 'K' || unit[0] == 'M'
                || unit[0] == 'G')),
{
    reveal_strlit("");
    reveal_strlit("B");
    reveal_strlit("KiB");
    reveal_strlit("MiB");
    reveal_strlit("GiB");
    assert(""@ =~= seq![]);
    assert("B"@ =~= seq!['B']);
    assert("KiB"@ =~= seq!['K', 'i', 'B']);
    assert("MiB"@ =~= seq!['M', 'i', 'B']);
    assert("GiB"@ =~= seq!['G', 'i', 'B']);
    assert(seq!['K', 'i', 'B'].len() == 3 && seq!['B'].len() == 1);
    assert("KiB"@[0] == 'K' && "MiB"@[0] == 'M' && "GiB"@[0] == 'G');
}

/// A number and a unit, with white space anywhere around them, spell the number of units in
/// bytes, where that fits 64 bits, and nothing where it does not.
pub proof fn law_sizes_are_numbers_of_units(
    before: Seq<char>,
    digits: Seq<char>,
    between: Seq<char>,
    unit: Seq<char>,
    after: Seq<char>,
)
    requires
        text::is_blank(before),
        text::is_blank(between),
        text::is_blank(after),
        digits.len() > 0,
        text::all_digits(digits),
        unit_bytes(unit) is Some,
    ensures
        ({
            let bytes = text::value_of(digits) * unit_bytes(unit)->0;
            size(before + digits + between + unit + after) == if bytes <= u64::MAX {
                Some(bytes as nat)
            } else {
                None
            }
        }),
{
    law_units_are_binary();
    let written = before + digits + between + unit + after;
    if unit.len() > 0 {
        let core = digits + between + unit;
        assert(written =~= before + core + after);
        assert(core[0] == digits[0]);
        assert(core.last() == unit.last());
        assert(unit.last() == 'B');
        text::lemma_trim_core(before, core, after);
        assert(core =~= digits + (between + unit));
        assert((between + unit)[0] == if between.len() > 0 {
            between[0]
        } else {
            unit[0]
        });
        lemma_leading_digits_of(core, digits, between + unit);
        assert(core.take(digits.len() as int) =~= digits);
        assert(core.skip(digits.len() as int) =~= between + unit);
        text::lemma_trim_start_core(between, unit);
    } else {
        let core = digits;
        assert(between + unit + after =~= between + after);
        assert(written =~= before + core + (between + after));
        assert(text::is_blank(between + after)) by {
            assert forall|i: int| 0 <= i < (between + after).len() implies text::is_space(
                #[trigger] (between + after)[i],
            ) by {
                if i < between.len() {
                    assert((between + after)[i] == between[i]);
                } else {
                    assert((between + after)[i] == after[i - between.len()]);
                }
            }
        }
        assert('0' <= core[core.len() - 1] <= '9');
        text::lemma_trim_core(before, core, between + after);
        assert(core + Seq::<char>::empty() =~= core);
        lemma_leading_digits_of(core, digits, Seq::empty());
        assert(core.take(digits.len() as int) =~= digits);
        assert(core.skip(digits.len() as int) =~= Seq::empty());
        assert(unit =~= Seq::empty());
    }
    lemma_number_is_the_value(digits);
}

proof fn lemma_leading_digits_of(core: Seq<char>, digits: Seq<char>, rest: Seq<char>)
    requires
        core == digits + rest,
        text::all_digits(digits),
        rest.len() > 0 ==> !text::is_digit(rest[0]),
    ensures
        leading_digits(core) == digits.len(),
{
    assert forall|i: int| 0 <= i < digits.len() implies text::is_digit(#[trigger] core[i]) by {
        assert(core[i] == digits[i]);
    }
    if rest.len() > 0 {
        assert(core[digits.len() as int] == rest[0]);
    }
    lemma_leading_digits(core, digits.len() as int);
}

/// A text that spells a size begins, after any white space, with a digit.
pub proof fn law_sizes_begin_with_a_number(written: Seq<char>)
    requires
        size(written) is Some,
    ensures
        text::trim(written).len() > 0,
        '0' <= text::trim(written)[0] <= '9',
        size(written)->0 <= u64::MAX,
{
    let whole = text::trim(written);
    assert(leading_digits(whole) > 0);
}

} // verus!
