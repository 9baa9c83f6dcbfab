//! Durations and clock readings as exact nanosecond counts.
//!
//! Nothing here reads a clock. Readings come in as values, so every decision that
//! depends on time is a function of its arguments.

use crate::text;
use crate::text::{append_decimal, append_low_digits, append_text};
use vstd::prelude::*;

verus! {

/// The longest duration: `u64::MAX` seconds and all but one of their nanoseconds.
pub const MAX_DURATION_NANOS: u128 = 18_446_744_073_709_551_615_999_999_999;

/// A span of time.
#[derive(Clone, Copy, Debug, PartialEq, Eq, Structural)]
pub struct Duration {
    nanos: u128,
}

impl View for Duration {
    type V = nat;

    /// The span in nanoseconds.
    closed spec fn view(&self) -> nat {
        self.nanos as nat
    }
}

/// The shorter of two spans.
pub open spec fn shorter(a: nat, b: nat) -> nat {
    if a <= b {
        a
    } else {
        b
    }
}

/// A span as far as one can be counted.
pub open spec fn clamped(nanos: nat) -> nat {
    shorter(nanos, MAX_DURATION_NANOS as nat)
}

impl Duration {
    #[verifier::type_invariant]
    spec fn in_range(self) -> bool {
        self.nanos <= MAX_DURATION_NANOS
    }

    /// A duration of no time.
    pub fn zero() -> (r: Self)
        ensures
            r@ == 0,
    {
        Duration { nanos: 0 }
    }

    /// A duration of whole seconds.
    pub fn from_secs(secs: u64) -> (r: Self)
        ensures
            r@ == secs * 1_000_000_000,
    {
        Duration { nanos: secs as u128 * 1_000_000_000 }
    }

    /// A duration of whole milliseconds.
    pub fn from_millis(millis: u64) -> (r: Self)
        ensures
            r@ == millis * 1_000_000,
    {
        Duration { nanos: millis as u128 * 1_000_000 }
    }

    /// A duration of whole nanoseconds.
    pub fn from_nanos(nanos: u64) -> (r: Self)
        ensures
            r@ == nanos,
    {
        Duration { nanos: nanos as u128 }
    }

    /// Seconds and the nanoseconds beyond them.
    pub fn new(secs: u64, nanos: u32) -> (r: Self)
        requires
            nanos < 1_000_000_000,
        ensures
            r@ == secs * 1_000_000_000 + nanos,
    {
        Duration { nanos: secs as u128 * 1_000_000_000 + nanos as u128 }
    }

    /// Whether this spans no time.
    pub fn is_zero(&self) -> (found: bool)
        ensures
            found == (self@ == 0),
    {
        self.nanos == 0
    }

    /// Whether this is no longer than `other`.
    pub fn at_most(&self, other: &Duration) -> (found: bool)
        ensures
            found == (self@ <= other@),
    {
        self.nanos <= other.nanos
    }

    /// The shorter of the two.
    pub fn min(self, other: Duration) -> (r: Self)
        ensures
            r@ == shorter(self@, other@),
            r == self || r == other,
    {
        if self.nanos <= other.nanos {
            self
        } else {
            other
        }
    }

    /// Half of this, rounded down.
    pub fn half(&self) -> (r: Self)
        ensures
            r@ == self@ / 2,
    {
        proof {
            use_type_invariant(self);
        }
        Duration { nanos: self.nanos / 2 }
    }

    /// The sum, or the longest duration when that is exceeded.
    pub fn saturating_add(&self, other: Duration) -> (r: Self)
        ensures
            r@ == clamped(self@ + other@),
    {
        proof {
            use_type_invariant(self);
            use_type_invariant(&other);
        }
        let sum: u128 = self.nanos + other.nanos;
        if sum <= MAX_DURATION_NANOS {
            Duration { nanos: sum }
        } else {
            Duration { nanos: MAX_DURATION_NANOS }
        }
    }

    /// The difference, or no time when `other` is longer.
    pub fn saturating_sub(&self, other: Duration) -> (r: Self)
        ensures
            r@ == if self@ >= other@ {
                (self@ - other@) as nat
            } else {
                0
            },
    {
        proof {
            use_type_invariant(self);
        }
        if self.nanos >= other.nanos {
            Duration { nanos: self.nanos - other.nanos }
        } else {
            Duration { nanos: 0 }
        }
    }

    /// The product, or the longest duration when that is exceeded.
    pub fn saturating_mul(&self, factor: u32) -> (r: Self)
        ensures
            r@ == clamped(self@ * factor as nat),
    {
        proof {
            use_type_invariant(self);
            let a = self.nanos as int;
            let b = factor as int;
            assert(0 <= a * b <= 18_446_744_073_709_551_615_999_999_999 * 0xffff_ffff)
                by (nonlinear_arith)
                requires
                    0 <= a <= 18_446_744_073_709_551_615_999_999_999,
                    0 <= b <= 0xffff_ffff,
            ;
        }
        let product: u128 = self.nanos * factor as u128;
        if product <= MAX_DURATION_NANOS {
            Duration { nanos: product }
        } else {
            Duration { nanos: MAX_DURATION_NANOS }
        }
    }

    /// The span in nanoseconds.
    pub fn as_nanos(&self) -> (n: u128)
        ensures
            n == self@,
            n <= MAX_DURATION_NANOS,
    {
        proof {
            use_type_invariant(self);
        }
        self.nanos
    }

    /// The span in nanoseconds, or `u64::MAX` when it is longer than that.
    pub fn capped_nanos(&self) -> (n: u64)
        ensures
            n == if self@ > u64::MAX {
                u64::MAX as nat
            } else {
                self@
            },
    {
        if self.nanos > u64::MAX as u128 {
            u64::MAX
        } else {
            self.nanos as u64
        }
    }

    /// The span in whole milliseconds.
    pub fn as_millis(&self) -> (n: u128)
        ensures
            n == self@ / 1_000_000,
    {
        self.nanos / 1_000_000
    }

    /// The span in whole seconds.
    pub fn as_secs(&self) -> (n: u64)
        ensures
            n == self@ / 1_000_000_000,
    {
        proof {
            use_type_invariant(self);
        }
        (self.nanos / 1_000_000_000) as u64
    }

    /// The nanoseconds beyond whole seconds.
    pub fn subsec_nanos(&self) -> (n: u32)
        ensures
            n == self@ % 1_000_000_000,
    {
        (self.nanos % 1_000_000_000) as u32
    }

    /// Appends the duration as diagnostics show it.
    pub fn append_to(&self, out: &mut String)
        ensures
            final(out)@ == old(out)@ + seconds_text(self@),
    {
        let ghost before = out@;
        append_decimal(out, self.as_secs());
        let rest: u32 = self.subsec_nanos();
        if rest > 0 {
            append_text(out, ".");
            append_low_digits(out, rest as u64, 9);
        }
        append_text(out, "s");
        assert(out@ =~= before + seconds_text(self@));
    }
}

/// Nanoseconds as diagnostics show them: seconds, with all nine decimals where they are not
/// whole.
pub open spec fn seconds_text(nanos: nat) -> Seq<char> {
    let whole = text::decimal(nanos / 1_000_000_000);
    if nanos % 1_000_000_000 == 0 {
        whole + "s"@
    } else {
        whole + "."@ + text::low_digits(nanos % 1_000_000_000, 9) + "s"@
    }
}

/// A reading of a monotonic clock, in nanoseconds from its start.
#[derive(Clone, Copy, Debug, PartialEq, Eq, Structural)]
pub struct Instant {
    /// Nanoseconds since the clock started.
    pub nanos: u128,
}

impl View for Instant {
    type V = nat;

    /// Nanoseconds since the clock started.
    open spec fn view(&self) -> nat {
        self.nanos as nat
    }
}

/// Whether every duration can still be added to a reading.
pub open spec fn has_room(reading: Instant) -> bool {
    reading@ + MAX_DURATION_NANOS <= u128::MAX
}

impl Instant {
    /// The reading `span` later.
    pub fn later(&self, span: Duration) -> (r: Self)
        requires
            has_room(*self),
        ensures
            r@ == self@ + span@,
    {
        proof {
            use_type_invariant(&span);
        }
        Instant { nanos: self.nanos + span.nanos }
    }

    /// Whether this reading is not after `other`.
    pub fn at_most(&self, other: &Instant) -> (found: bool)
        ensures
            found == (self@ <= other@),
    {
        self.nanos <= other.nanos
    }
}

/// Whether a duration is a whole number of seconds within bounds.
pub open spec fn in_whole_seconds(duration: nat, least: nat, most: nat) -> bool {
    least * 1_000_000_000 <= duration <= most * 1_000_000_000 && duration % 1_000_000_000 == 0
}

/// Whether a duration is a whole number of seconds within bounds.
pub fn whole_seconds(duration: &Duration, least: u64, most: u64) -> (found: bool)
    ensures
        found == in_whole_seconds(duration@, least as nat, most as nat),
{
    Duration::from_secs(least).at_most(duration) && duration.at_most(&Duration::from_secs(most))
        && duration.subsec_nanos() == 0
}

/// A duration is whole seconds within bounds exactly when it is that many seconds of a number
/// within the bounds.
pub proof fn law_whole_seconds_are_numbers_of_seconds(duration: nat, least: nat, most: nat)
    ensures
        in_whole_seconds(duration, least, most) <==> exists|n: nat|
            least <= n <= most && duration == #[trigger] (n * 1_000_000_000),
{
    if in_whole_seconds(duration, least, most) {
        let n = duration / 1_000_000_000;
        assert(duration == n * 1_000_000_000);
    }
}

/// Saturation never shortens what can be counted, and never exceeds the longest duration.
pub proof fn law_saturation_stops_at_the_longest(nanos: nat)
    ensures
        clamped(nanos) <= 18_446_744_073_709_551_615_999_999_999,
        nanos <= 18_446_744_073_709_551_615_999_999_999 ==> clamped(nanos) == nanos,
        nanos > 18_446_744_073_709_551_615_999_999_999 ==> clamped(nanos)
            == 18_446_744_073_709_551_615_999_999_999,
{
}

/// The shorter of two spans is one of them, and no longer than either.
pub proof fn law_shorter_is_the_shorter(a: nat, b: nat)
    ensures
        shorter(a, b) <= a,
        shorter(a, b) <= b,
        shorter(a, b) == a || shorter(a, b) == b,
{
}

/// What diagnostics show of a span is its number of seconds, exactly: digits, and where the
/// seconds are not whole a point and nine decimals, and then `s`.
pub proof fn law_seconds_are_shown_exactly(nanos: nat)
    ensures
        seconds_text(nanos).last() == 's',
        exists|whole: int|
            0 < whole < seconds_text(nanos).len() && text::all_digits(
                #[trigger] seconds_text(nanos).subrange(0, whole),
            ) && if seconds_text(nanos).len() == whole + 1 {
                text::value_of(seconds_text(nanos).subrange(0, whole)) * 1_000_000_000 == nanos
            } else {
                &&& seconds_text(nanos).len() == whole + 11
                &&& seconds_text(nanos)[whole] == '.'
                &&& text::all_digits(seconds_text(nanos).subrange(whole + 1, whole + 10))
                &&& text::value_of(seconds_text(nanos).subrange(0, whole)) * 1_000_000_000
                    + text::value_of(seconds_text(nanos).subrange(whole + 1, whole + 10)) == nanos
            },
{
    reveal_strlit("s");
    reveal_strlit(".");
    let shown = seconds_text(nanos);
    let digits = text::decimal(nanos / 1_000_000_000);
    let rest = text::low_digits(nanos % 1_000_000_000, 9);
    let whole = digits.len() as int;
    text::law_decimal_stands_for_its_number(nanos / 1_000_000_000);
    text::law_low_digits_stand_for_the_low_part(nanos % 1_000_000_000, 9);
    assert(vstd::arithmetic::power::pow(10, 9) == 1_000_000_000) by {
        reveal_with_fuel(vstd::arithmetic::power::pow, 10);
    }
    assert(shown.subrange(0, whole) =~= digits);
    if nanos % 1_000_000_000 != 0 {
        assert(shown.subrange(whole + 1, whole + 10) =~= rest);
    }
}

} // verus!
