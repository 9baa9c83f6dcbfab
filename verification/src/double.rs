//! IEEE-754 values carried by their bits.
//!
//! The library never computes with floating point. It moves values, asks whether
//! they are finite, and widens single precision without loss.

use vstd::arithmetic::power2::*;
use vstd::prelude::*;

verus! {

/// A double-precision value, as its IEEE-754 bits.
#[derive(Clone, Copy, Debug, PartialEq, Eq, Structural)]
pub struct Double {
    /// The sign, exponent and fraction fields, most significant first.
    pub bits: u64,
}

/// The exponent field of a double.
pub open spec fn exponent(bits: u64) -> int {
    (bits as int / 0x10_0000_0000_0000) % 0x800
}

/// The fraction field of a double.
pub open spec fn fraction(bits: u64) -> int {
    bits as int % 0x10_0000_0000_0000
}

/// The sign field of a double.
pub open spec fn sign(bits: u64) -> int {
    bits as int / 0x8000_0000_0000_0000
}

/// Whether a double is a number: neither infinite nor NaN.
pub open spec fn finite(bits: u64) -> bool {
    exponent(bits) != 0x7ff
}

/// The magnitude of a finite double, in units of `2^-1074`.
pub open spec fn scaled(bits: u64) -> int {
    if exponent(bits) == 0 {
        fraction(bits)
    } else {
        (0x10_0000_0000_0000 + fraction(bits)) * pow2((exponent(bits) - 1) as nat)
    }
}

/// The exponent field of a single.
pub open spec fn single_exponent(bits: u32) -> int {
    (bits as int / 0x80_0000) % 0x100
}

/// The fraction field of a single.
pub open spec fn single_fraction(bits: u32) -> int {
    bits as int % 0x80_0000
}

/// The sign field of a single.
pub open spec fn single_sign(bits: u32) -> int {
    bits as int / 0x8000_0000
}

/// The magnitude of a finite single, in units of `2^-149`.
pub open spec fn single_scaled(bits: u32) -> int {
    if single_exponent(bits) == 0 {
        single_fraction(bits)
    } else {
        (0x80_0000 + single_fraction(bits)) * pow2((single_exponent(bits) - 1) as nat)
    }
}

/// A subnormal single's fraction moved left until its leading bit is the implicit one,
/// and by how far it was moved.
pub open spec fn normalized(mantissa: nat, shift: nat) -> (nat, nat)
    decreases 0x100_0000 - mantissa,
{
    if mantissa == 0 || mantissa >= 0x80_0000 {
        (mantissa, shift)
    } else {
        normalized(mantissa * 2, shift + 1)
    }
}

/// The double that a single widens to: the same sign, the exponent under the other
/// bias, and the fraction followed by zeros.
pub open spec fn widened(single: u32) -> u64 {
    let high = single_sign(single) * 0x8000_0000_0000_0000;
    let power = single_exponent(single);
    let places = single_fraction(single);
    let (mantissa, shift) = normalized(places as nat, 0);
    if power == 0xff {
        (high + 0x7ff * 0x10_0000_0000_0000 + places * 0x2000_0000) as u64
    } else if power > 0 {
        (high + (power + 896) * 0x10_0000_0000_0000 + places * 0x2000_0000) as u64
    } else if places == 0 {
        high as u64
    } else {
        (high + (897 - shift) * 0x10_0000_0000_0000 + (mantissa - 0x80_0000) * 0x2000_0000) as u64
    }
}

impl Double {
    /// Whether this is a number: neither infinite nor NaN.
    pub fn is_finite(&self) -> (found: bool)
        ensures
            found == finite(self.bits),
    {
        (self.bits / 0x10_0000_0000_0000) % 0x800 != 0x7ff
    }

    /// Widens a single-precision value. Nothing is lost: a finite value keeps its
    /// sign and magnitude, and a value that is not finite stays so.
    pub fn widen(single: u32) -> (r: Self)
        ensures
            r.bits == widened(single),
            sign(r.bits) == single_sign(single),
            finite(r.bits) == (single_exponent(single) != 0xff),
            finite(r.bits) ==> scaled(r.bits) == single_scaled(single) * pow2(925),
    {
        let negative: u64 = (single / 0x8000_0000) as u64;
        let power: u64 = ((single / 0x80_0000) % 0x100) as u64;
        let places: u64 = (single % 0x80_0000) as u64;
        if power == 0xff {
            let r = Double { bits: pack(negative, 0x7ff, places * 0x2000_0000) };
            return r;
        }
        if power > 0 {
            let bits: u64 = pack(negative, power + 896, places * 0x2000_0000);
            proof {
                lemma_widened(0x80_0000 + places as int, (power - 1) as nat, 0);
                assert(scaled(bits) == (0x80_0000 + places as int) * 0x2000_0000 * pow2(
                    (power + 895) as nat,
                ));
            }
            return Double { bits };
        }
        if places == 0 {
            let r = Double { bits: pack(negative, 0, 0) };
            assert(0 * pow2(925) == 0);
            return r;
        }
        let mut mantissa: u64 = places;
        let mut shift: u64 = 0;
        proof {
            lemma_pow2_zero();
        }
        while mantissa < 0x80_0000
            invariant
                0 < mantissa < 0x100_0000,
                shift <= 23,
                mantissa == places * pow2(shift as nat),
                mantissa >= pow2(shift as nat),
                places > 0,
                normalized(places as nat, 0) == normalized(mantissa as nat, shift as nat),
            decreases 0x100_0000 - mantissa,
        {
            proof {
                lemma_doubled(places as int, shift as nat);
                lemma_small_shift(shift as nat);
            }
            mantissa = mantissa * 2;
            shift = shift + 1;
        }
        let bits: u64 = pack(negative, 897 - shift, (mantissa - 0x80_0000) * 0x2000_0000);
        proof {
            lemma_widened(places as int, 0, shift as nat);
            assert(scaled(bits) == mantissa * 0x2000_0000 * pow2((896 - shift) as nat));
        }
        Double { bits }
    }
}

/// Puts the three fields together.
fn pack(sign_field: u64, exponent_field: u64, fraction_field: u64) -> (bits: u64)
    requires
        sign_field <= 1,
        exponent_field < 0x800,
        fraction_field < 0x10_0000_0000_0000,
    ensures
        bits == sign_field * 0x8000_0000_0000_0000 + exponent_field * 0x10_0000_0000_0000
            + fraction_field,
        sign(bits) == sign_field,
        exponent(bits) == exponent_field,
        fraction(bits) == fraction_field,
{
    sign_field * 0x8000_0000_0000_0000 + exponent_field * 0x10_0000_0000_0000 + fraction_field
}

proof fn lemma_packed(sign_field: int, exponent_field: int, fraction_field: int)
    requires
        0 <= sign_field <= 1,
        0 <= exponent_field < 0x800,
        0 <= fraction_field < 0x10_0000_0000_0000,
    ensures
        ({
            let n = sign_field * 0x8000_0000_0000_0000 + exponent_field * 0x10_0000_0000_0000
                + fraction_field;
            &&& 0 <= n <= u64::MAX
            &&& sign(n as u64) == sign_field
            &&& exponent(n as u64) == exponent_field
            &&& fraction(n as u64) == fraction_field
        }),
{
}

proof fn lemma_pow2_zero()
    ensures
        pow2(0) == 1,
{
    lemma2_to64();
}

proof fn lemma_doubled(places: int, shift: nat)
    ensures
        places * pow2(shift) * 2 == places * pow2(shift + 1),
        pow2(shift) * 2 == pow2(shift + 1),
{
    lemma2_to64();
    lemma_pow2_adds(shift, 1);
    let p = pow2(shift) as int;
    assert(places * p * 2 == places * (p * 2)) by (nonlinear_arith);
}

proof fn lemma_small_shift(shift: nat)
    requires
        pow2(shift) < 0x80_0000,
        shift <= 23,
    ensures
        shift < 23,
{
    lemma2_to64();
}

/// Moving `29 + shift` factors of two from the exponent into the fraction.
proof fn lemma_widened(mantissa: int, power: nat, shift: nat)
    requires
        shift <= 23,
    ensures
        shift == 0 ==> mantissa * 0x2000_0000 * pow2(power + 896) == mantissa * pow2(power) * pow2(
            925,
        ),
        power == 0 ==> mantissa * pow2(shift) * 0x2000_0000 * pow2((896 - shift) as nat) == mantissa
            * pow2(925),
{
    lemma2_to64();
    assert(pow2(29) == 0x2000_0000);
    lemma_pow2_adds(29, power + 896);
    lemma_pow2_adds(power, 925);
    let a = pow2(29) as int;
    let b = pow2(power + 896) as int;
    let c = pow2(power) as int;
    let d = pow2(925) as int;
    assert(mantissa * a * b == mantissa * (a * b)) by (nonlinear_arith);
    assert(mantissa * c * d == mantissa * (c * d)) by (nonlinear_arith);
    lemma_pow2_adds(shift, 29);
    lemma_pow2_adds(shift + 29, (896 - shift) as nat);
    let e = pow2(shift) as int;
    let f = pow2((896 - shift) as nat) as int;
    assert(mantissa * e * a * f == mantissa * ((e * a) * f)) by (nonlinear_arith);
}

/// Widening loses nothing: a finite value keeps its sign and magnitude, and a value that
/// is not finite stays so.
pub proof fn law_widening_is_exact(single: u32)
    ensures
        sign(widened(single)) == single_sign(single),
        finite(widened(single)) == (single_exponent(single) != 0xff),
        finite(widened(single)) ==> scaled(widened(single)) == single_scaled(single) * pow2(925),
{
    let power = single_exponent(single);
    let places = single_fraction(single);
    let high = single_sign(single);
    lemma2_to64();
    if power == 0xff {
        lemma_packed(high, 0x7ff, places * 0x2000_0000);
    } else if power > 0 {
        lemma_packed(high, power + 896, places * 0x2000_0000);
        lemma_widened(0x80_0000 + places, (power - 1) as nat, 0);
        assert(scaled(widened(single)) == (0x80_0000 + places) * 0x2000_0000 * pow2(
            (power + 895) as nat,
        ));
    } else if places > 0 {
        lemma_normalized(places as nat, places as nat, 0);
        let (mantissa, shift) = normalized(places as nat, 0);
        lemma_packed(high, 897 - shift, (mantissa - 0x80_0000) * 0x2000_0000);
        lemma_widened(places, 0, shift);
        assert(scaled(widened(single)) == mantissa * 0x2000_0000 * pow2((896 - shift) as nat));
    } else {
        lemma_packed(high, 0, 0);
        assert(0 * pow2(925) == 0);
    }
}

proof fn lemma_normalized(places: nat, mantissa: nat, shift: nat)
    requires
        0 < places < 0x80_0000,
        mantissa == places * pow2(shift),
        pow2(shift) <= mantissa < 0x100_0000,
        shift <= 23,
    ensures
        ({
            let (m, s) = normalized(mantissa, shift);
            &&& m == places * pow2(s)
            &&& 0x80_0000 <= m < 0x100_0000
            &&& s <= 23
        }),
    decreases 0x100_0000 - mantissa,
{
    if mantissa < 0x80_0000 {
        lemma_doubled(places as int, shift);
        lemma_small_shift(shift);
        lemma_pow2_pos(shift);
        lemma_normalized(places, mantissa * 2, shift + 1);
    }
}

/// A double is a number exactly when the eleven bits after its sign are not all set.
pub proof fn law_numbers_have_a_finite_exponent(bits: u64)
    ensures
        finite(bits) <==> bits & 0x7ff0_0000_0000_0000u64 != 0x7ff0_0000_0000_0000u64,
{
    assert(((bits / 0x10_0000_0000_0000u64) % 0x800u64 != 0x7ffu64) == (bits
        & 0x7ff0_0000_0000_0000u64 != 0x7ff0_0000_0000_0000u64)) by (bit_vector);
}

} // verus!
