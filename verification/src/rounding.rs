//! Readings rounded to whole numbers.
//!
//! The provider hands out its metrics as floating-point numbers; the display
//! takes whole degrees, watts and percent. A reading is held here by its bit
//! pattern and rounded in integer arithmetic: to the nearest whole number, a
//! half going away from zero, and limited to what 32 bits hold. A reading
//! that is no number rounds to zero.

use crate::codec::clamp_int;
use crate::single::power_of_two;
use vstd::arithmetic::div_mod::lemma_div_multiples_vanish_quotient;
use vstd::arithmetic::power2::{
    lemma2_to64, lemma2_to64_rest, lemma_pow2_adds, lemma_pow2_pos, lemma_pow2_strictly_increases,
    pow2,
};
use vstd::prelude::*;

verus! {

/// The two binary floating-point formats that readings come in.
#[derive(Clone, Copy, Debug, PartialEq, Eq, Structural)]
pub enum Precision {
    /// 32 bits: 1 sign, 8 exponent, 23 fraction.
    Single,
    /// 64 bits: 1 sign, 11 exponent, 52 fraction.
    Double,
}

impl Precision {
    /// Width of the fraction field.
    pub open spec fn fraction_bits_of(self) -> nat {
        match self {
            Precision::Single => 23,
            Precision::Double => 52,
        }
    }

    /// Width of the exponent field.
    pub open spec fn exponent_bits_of(self) -> nat {
        match self {
            Precision::Single => 8,
            Precision::Double => 11,
        }
    }

    /// The exponent field of numbers between one and two.
    pub open spec fn bias_of(self) -> nat {
        match self {
            Precision::Single => 127,
            Precision::Double => 1023,
        }
    }

    /// The power of two by which every finite number of the format becomes
    /// an integer: 149 and 1074.
    pub open spec fn scale_of(self) -> nat {
        (self.bias_of() + self.fraction_bits_of() - 1) as nat
    }

    /// Width of the fraction field.
    pub fn fraction_bits(&self) -> (bits: u32)
        ensures
            bits == self.fraction_bits_of(),
    {
        match self {
            Precision::Single => 23,
            Precision::Double => 52,
        }
    }

    /// Width of the exponent field.
    pub fn exponent_bits(&self) -> (bits: u32)
        ensures
            bits == self.exponent_bits_of(),
    {
        match self {
            Precision::Single => 8,
            Precision::Double => 11,
        }
    }

    /// The exponent field of numbers between one and two.
    pub fn bias(&self) -> (bias: u32)
        ensures
            bias == self.bias_of(),
    {
        match self {
            Precision::Single => 127,
            Precision::Double => 1023,
        }
    }
}

/// The exponent field of a pattern.
pub open spec fn float_exponent(bits: u64, precision: Precision) -> nat {
    (bits as nat / pow2(precision.fraction_bits_of())) % pow2(precision.exponent_bits_of())
}

/// The fraction field of a pattern.
pub open spec fn float_fraction(bits: u64, precision: Precision) -> nat {
    bits as nat % pow2(precision.fraction_bits_of())
}

/// Whether the sign bit of a pattern is set.
pub open spec fn float_negative(bits: u64, precision: Precision) -> bool {
    (bits as nat / pow2(precision.fraction_bits_of()) / pow2(precision.exponent_bits_of())) % 2
        == 1
}

/// Whether a pattern encodes no number: the exponent field all ones and the
/// fraction not zero.
pub open spec fn float_is_nan(bits: u64, precision: Precision) -> bool {
    float_exponent(bits, precision) == pow2(precision.exponent_bits_of()) - 1 && float_fraction(
        bits,
        precision,
    ) != 0
}

/// The magnitude that a pattern encodes, multiplied by two to the power of
/// the format's scale. An infinity counts as the power of two that follows
/// the largest finite number.
pub open spec fn float_scaled_magnitude(bits: u64, precision: Precision) -> nat {
    let exponent = float_exponent(bits, precision);
    let fraction = float_fraction(bits, precision);
    if exponent == 0 {
        fraction
    } else {
        (pow2(precision.fraction_bits_of()) + fraction) * pow2((exponent - 1) as nat)
    }
}

/// `n / d` rounded to the nearest integer, a half going up.
pub open spec fn round_half_up(n: nat, d: nat) -> nat
    recommends
        d > 0,
{
    (2 * n + d) / (2 * d)
}

/// The magnitude of a pattern rounded to a whole number.
pub open spec fn float_rounded_magnitude(bits: u64, precision: Precision) -> nat {
    round_half_up(float_scaled_magnitude(bits, precision), pow2(precision.scale_of()))
}

/// The whole number that a reading rounds to: nearest, a half away from
/// zero, limited to the range of 32 bits; zero for a pattern that encodes no
/// number.
pub open spec fn rounded_float(bits: u64, precision: Precision) -> int {
    if float_is_nan(bits, precision) {
        0
    } else {
        let magnitude = float_rounded_magnitude(bits, precision) as int;
        clamp_int(
            if float_negative(bits, precision) {
                -magnitude
            } else {
                magnitude
            },
            i32::MIN as int,
            i32::MAX as int,
        )
    }
}

/// A whole number survives rounding: a number that is `n` times the unit
/// rounds to `n`.
pub proof fn law_whole_numbers_survive(n: nat, d: nat)
    requires
        d > 0,
    ensures
        round_half_up(n * d, d) == n,
{
    assert((2 * (n * d) + d) / (2 * d) == n) by (nonlinear_arith)
        requires
            d > 0,
    ;
}

/// Rounding lands within half a unit, and a number that lies half a unit
/// from two whole numbers goes to the larger.
pub proof fn law_round_half_up(n: nat, d: nat)
    requires
        d > 0,
    ensures
        -(d as int) < 2 * (round_half_up(n, d) * d - n) <= d,
{
    let q = (2 * n + d) / (2 * d);
    let r = (2 * n + d) % (2 * d);
    assert(2 * n + d == (2 * d) * q + r && 0 <= r < 2 * d) by (nonlinear_arith)
        requires
            d > 0,
            q == (2 * n + d) / (2 * d),
            r == (2 * n + d) % (2 * d),
    ;
    assert(2 * (q * d) == (2 * d) * q) by (nonlinear_arith);
}

/// The magnitude of a pattern with a small exponent field is below one half
/// and rounds to zero.
proof fn lemma_rounds_to_zero(bits: u64, precision: Precision)
    requires
        float_exponent(bits, precision) + precision.fraction_bits_of() + 1
            < precision.bias_of() + precision.fraction_bits_of(),
    ensures
        float_rounded_magnitude(bits, precision) == 0,
{
    let f = precision.fraction_bits_of();
    let exponent = float_exponent(bits, precision);
    let fraction = float_fraction(bits, precision);
    let unit = pow2(precision.scale_of());
    let scaled = float_scaled_magnitude(bits, precision);
    lemma_pow2_pos(f);
    lemma_pow2_pos(precision.scale_of());
    assert(fraction < pow2(f)) by (nonlinear_arith)
        requires
            fraction == bits as nat % pow2(f),
            pow2(f) > 0,
    ;
    // Twice the scaled magnitude is below the unit.
    assert(2 * scaled < unit) by {
        lemma2_to64();
        if exponent == 0 {
            lemma_pow2_adds(1, f);
            lemma_pow2_strictly_increases(f + 1, precision.scale_of());
        } else {
            let low = pow2((exponent - 1) as nat);
            lemma_pow2_pos((exponent - 1) as nat);
            lemma_pow2_adds(f + 2, (exponent - 1) as nat);
            lemma_pow2_adds(2, f);
            if f + 2 + exponent - 1 < precision.scale_of() {
                lemma_pow2_strictly_increases(
                    (f + 2 + exponent - 1) as nat,
                    precision.scale_of(),
                );
            }
            let sig = pow2(f) + fraction;
            assert(2 * (sig * low) < (4 * pow2(f)) * low) by (nonlinear_arith)
                requires
                    sig < 2 * pow2(f),
                    low > 0,
            ;
        }
    }
    assert((2 * scaled + unit) / (2 * unit) == 0) by (nonlinear_arith)
        requires
            0 <= 2 * scaled < unit,
    ;
}

/// The magnitude of a pattern whose exponent field is below the pivot by
/// `shift` is its significand divided by two to the `shift`.
proof fn lemma_rounds_by_shift(bits: u64, precision: Precision, shift: nat)
    requires
        float_exponent(bits, precision) >= 1,
        shift >= 1,
        float_exponent(bits, precision) + shift == precision.bias_of()
            + precision.fraction_bits_of(),
    ensures
        float_rounded_magnitude(bits, precision) == round_half_up(
            pow2(precision.fraction_bits_of()) + float_fraction(bits, precision),
            pow2(shift),
        ),
{
    let exponent = float_exponent(bits, precision);
    let sig = pow2(precision.fraction_bits_of()) + float_fraction(bits, precision);
    let low = pow2((exponent - 1) as nat);
    let d = pow2(shift);
    lemma_pow2_pos((exponent - 1) as nat);
    lemma_pow2_pos(shift);
    lemma_pow2_adds((exponent - 1) as nat, shift);
    assert(pow2(precision.scale_of()) == low * d);
    lemma_div_multiples_vanish_quotient(low as int, (2 * sig + d) as int, (2 * d) as int);
    assert(low * (2 * sig + d) == 2 * (sig * low) + low * d) by (nonlinear_arith);
    assert(low * (2 * d) == 2 * (low * d)) by (nonlinear_arith);
}

/// The magnitude of a pattern whose exponent field is above the pivot by
/// `shift` is a whole number: its significand times two to the `shift`.
proof fn lemma_rounds_whole(bits: u64, precision: Precision, shift: nat)
    requires
        float_exponent(bits, precision) == precision.bias_of() + precision.fraction_bits_of()
            + shift,
    ensures
        float_rounded_magnitude(bits, precision) == (pow2(precision.fraction_bits_of())
            + float_fraction(bits, precision)) * pow2(shift),
        float_rounded_magnitude(bits, precision) >= pow2(precision.fraction_bits_of()) * pow2(
            shift,
        ),
{
    let exponent = float_exponent(bits, precision);
    let sig = pow2(precision.fraction_bits_of()) + float_fraction(bits, precision);
    let unit = pow2(precision.scale_of());
    let up = pow2(shift);
    lemma_pow2_pos(precision.scale_of());
    lemma_pow2_pos(shift);
    lemma_pow2_adds(shift, precision.scale_of());
    assert(pow2((exponent - 1) as nat) == up * unit);
    assert(sig * (up * unit) == (sig * up) * unit) by (nonlinear_arith);
    law_whole_numbers_survive(sig * up, unit);
    assert(sig * up >= pow2(precision.fraction_bits_of()) * up) by (nonlinear_arith)
        requires
            sig >= pow2(precision.fraction_bits_of()),
            up > 0,
    ;
}

/// Rounds a reading, given by its bit pattern, to a whole number: nearest, a
/// half away from zero, limited to the range of 32 bits; zero for a pattern
/// that encodes no number. Bits above the format's width are ignored.
pub fn round_float(bits: u64, precision: Precision) -> (rounded: i32)
    ensures
        rounded == rounded_float(bits, precision),
{
    let f = precision.fraction_bits();
    let w = precision.exponent_bits();
    let fraction_unit = power_of_two(f);
    let exponent_unit = power_of_two(w);
    let exponent = (bits / fraction_unit) % exponent_unit;
    let fraction = bits % fraction_unit;
    let negative = (bits / fraction_unit / exponent_unit) % 2 == 1;
    if exponent == exponent_unit - 1 && fraction != 0 {
        return 0;
    }
    proof {
        lemma2_to64();
        lemma2_to64_rest();
    }
    let significand = fraction_unit + fraction;
    let pivot: u64 = (precision.bias() + f) as u64;
    // The magnitude, or 2^31 where it is that or more.
    let magnitude: u64 = if exponent >= pivot {
        let shift = exponent - pivot;
        proof {
            lemma_rounds_whole(bits, precision, shift as nat);
        }
        if shift > 8 {
            proof {
                lemma_pow2_strictly_increases(8, shift as nat);
                let up = pow2(shift as nat);
                assert(pow2(f as nat) * up >= 0x80_0000 * 0x100) by (nonlinear_arith)
                    requires
                        pow2(f as nat) >= 0x80_0000,
                        up >= 0x100,
                ;
            }
            0x8000_0000
        } else {
            let up = power_of_two(shift as u32);
            proof {
                if shift < 8 {
                    lemma_pow2_strictly_increases(shift as nat, 8);
                }
                assert(significand * up <= 0x20_0000_0000_0000 * 0x100) by (nonlinear_arith)
                    requires
                        significand <= 0x20_0000_0000_0000,
                        up <= 0x100,
                ;
            }
            let whole = significand * up;
            if whole > 0x8000_0000 {
                0x8000_0000
            } else {
                whole
            }
        }
    } else if exponent + (f as u64) + 1 < pivot {
        proof {
            lemma_rounds_to_zero(bits, precision);
        }
        0
    } else {
        let shift = pivot - exponent;
        if exponent == 0 {
            proof {
                lemma_rounds_to_zero(bits, precision);
            }
            0
        } else {
            let d = power_of_two(shift as u32);
            proof {
                lemma_rounds_by_shift(bits, precision, shift as nat);
            }
            (2 * significand + d) / (2 * d)
        }
    };
    if negative {
        if magnitude >= 0x8000_0000 {
            i32::MIN
        } else {
            0 - (magnitude as i32)
        }
    } else {
        if magnitude > 0x7FFF_FFFF {
            i32::MAX
        } else {
            magnitude as i32
        }
    }
}

/// Rounds a double-precision reading to a whole number.
pub fn round_double(bits: u64) -> (rounded: i32)
    ensures
        rounded == rounded_float(bits, Precision::Double),
{
    round_float(bits, Precision::Double)
}

/// Rounds a single-precision reading to a whole number.
pub fn round_single(bits: u32) -> (rounded: i32)
    ensures
        rounded == rounded_float(bits as u64, Precision::Single),
{
    round_float(bits as u64, Precision::Single)
}

} // verus!
