//! IEEE-754 single-precision bit patterns of integers.
//!
//! The display expects a temperature as the four bytes of a single-precision
//! number. Only whole degrees are ever sent, so the conversion is done here in
//! integer arithmetic: sign, exponent and a significand rounded to nearest,
//! ties to even.

use vstd::arithmetic::power2::{
    lemma2_to64, lemma_pow2_adds, lemma_pow2_pos, lemma_pow2_unfold, pow2,
};
use vstd::prelude::*;

verus! {

/// Number of explicitly stored significand bits.
pub const FRACTION_BITS: u32 = 23;

/// Exponent bias of the format.
pub const EXPONENT_BIAS: u32 = 127;

/// Weight of the hidden leading significand bit, `2^23`.
pub const HIDDEN_BIT: u64 = 0x80_0000;

/// Weight of the sign bit in the 32-bit pattern, `2^31`.
pub const SIGN_BIT: u64 = 0x8000_0000;

/// Index of the highest set bit of `a`: the `e` with `2^e <= a < 2^(e+1)`.
/// Zero for `a < 2`.
pub open spec fn floor_log2(a: nat) -> nat
    decreases a,
{
    if a < 2 {
        0
    } else {
        floor_log2(a / 2) + 1
    }
}

/// `n / d` rounded to the nearest integer; a tie goes to the even neighbour.
pub open spec fn round_half_even(n: nat, d: nat) -> nat
    recommends
        d > 0,
{
    let q = n / d;
    let r = n % d;
    if 2 * r > d || (2 * r == d && q % 2 == 1) {
        q + 1
    } else {
        q
    }
}

/// The 24-bit significand of the single nearest to `a`, hidden bit included.
/// It is `2^24` when rounding carried into the next binade.
pub open spec fn single_significand(a: nat) -> nat
    recommends
        a > 0,
{
    let e = floor_log2(a);
    if e <= 23 {
        a * pow2((23 - e) as nat)
    } else {
        round_half_even(a, pow2((e - 23) as nat))
    }
}

/// Bit pattern, sign bit clear, of the single nearest to the magnitude `a`.
pub open spec fn single_bits_of_magnitude(a: nat) -> nat {
    if a == 0 {
        0
    } else {
        ((floor_log2(a) + 127) * 0x80_0000 + single_significand(a) - 0x80_0000) as nat
    }
}

/// Bit pattern of the single-precision number nearest to the integer `t`.
pub open spec fn single_bits_of(t: int) -> nat {
    if t < 0 {
        0x8000_0000 + single_bits_of_magnitude((-t) as nat)
    } else {
        single_bits_of_magnitude(t as nat)
    }
}

/// Whether the integer `t` is itself a single-precision number: it has at most
/// 24 significant bits.
pub open spec fn single_representable(t: int) -> bool {
    let a = (if t < 0 {
        -t
    } else {
        t
    }) as nat;
    let e = floor_log2(a);
    e <= 23 || a % pow2((e - 23) as nat) == 0
}

/// The number that a finite bit pattern encodes, multiplied by `2^149` so that
/// every finite single, subnormals included, becomes an integer.
pub open spec fn single_scaled_value(bits: nat) -> int
    recommends
        bits < 0x1_0000_0000,
        (bits / 0x80_0000) % 256 != 255,
{
    let exponent = (bits / 0x80_0000) % 256;
    let fraction = bits % 0x80_0000;
    let magnitude = if exponent == 0 {
        fraction
    } else {
        (0x80_0000 + fraction) * pow2((exponent - 1) as nat)
    };
    if bits / 0x8000_0000 == 1 {
        -(magnitude as int)
    } else {
        magnitude as int
    }
}

/// `floor_log2(a)` brackets `a` between two neighbouring powers of two.
pub proof fn lemma_floor_log2_brackets(a: nat)
    requires
        a > 0,
    ensures
        pow2(floor_log2(a)) <= a < pow2(floor_log2(a) + 1),
    decreases a,
{
    lemma2_to64();
    if a >= 2 {
        let half = a / 2;
        lemma_floor_log2_brackets(half);
        lemma_pow2_unfold(floor_log2(a));
        lemma_pow2_unfold(floor_log2(a) + 1);
    }
}

/// A number below `2^k` has its highest set bit below position `k`.
pub proof fn lemma_floor_log2_below(a: nat, k: nat)
    requires
        k > 0,
        a < pow2(k),
    ensures
        floor_log2(a) < k,
    decreases a,
{
    if a >= 2 {
        lemma2_to64();
        lemma_pow2_unfold(k);
        if k > 1 {
            lemma_floor_log2_below(a / 2, (k - 1) as nat);
        }
    }
}

/// The significand of a positive magnitude keeps its hidden bit and never
/// exceeds `2^24`.
pub proof fn lemma_significand_range(a: nat)
    requires
        a > 0,
    ensures
        0x80_0000 <= single_significand(a) <= 0x100_0000,
{
    lemma2_to64();
    let e = floor_log2(a);
    lemma_floor_log2_brackets(a);
    if e <= 23 {
        let s = pow2((23 - e) as nat);
        lemma_pow2_adds(e, (23 - e) as nat);
        lemma_pow2_adds(e + 1, (23 - e) as nat);
        lemma_pow2_pos((23 - e) as nat);
        let lo = pow2(e);
        let hi = pow2(e + 1);
        assert(lo * s <= a * s && a * s < hi * s) by (nonlinear_arith)
            requires
                lo <= a < hi,
                s > 0,
        ;
    } else {
        let d = pow2((e - 23) as nat);
        lemma_pow2_pos((e - 23) as nat);
        lemma_pow2_adds(23, (e - 23) as nat);
        lemma_pow2_adds(24, (e - 23) as nat);
        let q = a / d;
        let r = a % d;
        assert(a == d * q + r && 0 <= r < d) by (nonlinear_arith)
            requires
                d > 0,
                q == a / d,
                r == a % d,
        ;
        assert(0x80_0000 <= q < 0x100_0000) by (nonlinear_arith)
            requires
                a == d * q + r,
                0 <= r < d,
                0x80_0000 * d <= a,
                a < 0x100_0000 * d,
                d > 0,
        ;
    }
}

/// The significand of a magnitude that is itself a single-precision number is
/// exact: nothing is rounded away, so nothing carries.
pub proof fn lemma_exact_significand(a: nat)
    requires
        0 < a < 0x1_0000_0000,
        single_representable(a as int),
    ensures
        single_significand(a) < 0x100_0000,
        single_significand(a) * pow2(floor_log2(a) + 126) == a * pow2(149),
{
    lemma2_to64();
    let e = floor_log2(a);
    let sig = single_significand(a);
    lemma_floor_log2_brackets(a);
    if e <= 23 {
        let s = pow2((23 - e) as nat);
        let p = pow2(e + 126);
        let hi = pow2(e + 1);
        lemma_pow2_adds((23 - e) as nat, e + 126);
        lemma_pow2_adds(e + 1, (23 - e) as nat);
        lemma_pow2_pos((23 - e) as nat);
        assert(s * p == pow2(149));
        assert(hi * s == 0x100_0000);
        assert(a * s < hi * s) by (nonlinear_arith)
            requires
                a < hi,
                s > 0,
        ;
        assert((a * s) * p == a * (s * p)) by (nonlinear_arith);
    } else {
        let d = pow2((e - 23) as nat);
        let p = pow2(149);
        let q = a / d;
        lemma_pow2_pos((e - 23) as nat);
        lemma_pow2_adds((e - 23) as nat, 149);
        lemma_pow2_adds(24, (e - 23) as nat);
        assert(d * p == pow2(e + 126));
        assert(0x100_0000 * d == pow2(e + 1));
        assert(a == d * q) by (nonlinear_arith)
            requires
                d > 0,
                q == a / d,
                a % d == 0,
        ;
        assert(sig == q);
        assert(q < 0x100_0000) by (nonlinear_arith)
            requires
                a == d * q,
                a < 0x100_0000 * d,
                d > 0,
        ;
        assert(q * (d * p) == (d * q) * p) by (nonlinear_arith);
    }
}

/// Where the significand did not carry, the exponent field of the pattern is
/// the biased exponent and the fraction field is the significand without its
/// hidden bit.
pub proof fn lemma_magnitude_fields(a: nat)
    requires
        0 < a < 0x1_0000_0000,
        single_significand(a) < 0x100_0000,
    ensures
        single_bits_of_magnitude(a) < 0x8000_0000,
        single_bits_of_magnitude(a) / 0x80_0000 == floor_log2(a) + 127,
        single_bits_of_magnitude(a) % 0x80_0000 == single_significand(a) - 0x80_0000,
{
    lemma2_to64();
    lemma_floor_log2_below(a, 32);
    lemma_significand_range(a);
    let e = floor_log2(a);
    let fraction = (single_significand(a) - 0x80_0000) as nat;
    let low = single_bits_of_magnitude(a);
    assert(low == (e + 127) * 0x80_0000 + fraction);
    assert(low / 0x80_0000 == e + 127 && low % 0x80_0000 == fraction) by (nonlinear_arith)
        requires
            low == (e + 127) * 0x80_0000 + fraction,
            0 <= fraction < 0x80_0000,
    ;
}

/// What the pattern of a magnitude encodes: its significand at the weight of
/// its exponent. That holds also where rounding carried into the next binade.
pub proof fn lemma_magnitude_scaled(a: nat)
    requires
        0 < a < 0x1_0000_0000,
    ensures
        single_bits_of_magnitude(a) < 0x8000_0000,
        (single_bits_of_magnitude(a) / 0x80_0000) % 256 != 255,
        (single_bits_of_magnitude(a) / 0x80_0000) % 256 != 0,
        single_scaled_value(single_bits_of_magnitude(a)) == single_significand(a) * pow2(
            floor_log2(a) + 126,
        ),
        single_bits_of_magnitude(a) % 2 == single_significand(a) % 2,
{
    lemma2_to64();
    lemma_floor_log2_below(a, 32);
    lemma_significand_range(a);
    let e = floor_log2(a);
    let sig = single_significand(a);
    let low = single_bits_of_magnitude(a);
    assert(low == (e + 126) * 0x80_0000 + sig);
    if sig < 0x100_0000 {
        lemma_magnitude_fields(a);
    } else {
        assert(low == (e + 128) * 0x80_0000);
        assert(low / 0x80_0000 == e + 128 && low % 0x80_0000 == 0) by (nonlinear_arith)
            requires
                low == (e + 128) * 0x80_0000,
        ;
        lemma_pow2_unfold(e + 127);
        let p = pow2(e + 126);
        assert(0x80_0000 * (2 * p) == 0x100_0000 * p) by (nonlinear_arith);
    }
}

/// Division rounded to nearest lands within half a divisor of the dividend,
/// and exactly half a divisor off only on an even quotient.
pub proof fn lemma_round_half_even_error(n: nat, d: nat)
    requires
        d > 0,
    ensures
        -(d as int) <= 2 * (round_half_even(n, d) * d - n) <= d,
        2 * (round_half_even(n, d) * d - n) == d || 2 * (round_half_even(n, d) * d - n) == -(
        d as int) ==> round_half_even(n, d) % 2 == 0,
{
    let q = n / d;
    let r = n % d;
    assert(n == d * q + r && 0 <= r < d) by (nonlinear_arith)
        requires
            d > 0,
            q == n / d,
            r == n % d,
    ;
    assert((q + 1) * d == q * d + d) by (nonlinear_arith);
    assert(q * d == d * q) by (nonlinear_arith);
}

/// The pattern of an integer encodes the single-precision number nearest to
/// it. Below `2^24` in magnitude that is the integer itself. Above, singles
/// lie `2^(e-23)` apart, `e` being the position of the integer's highest bit:
/// the encoded number is at most half that step away, and exactly half a
/// step away only where the pattern's last bit is clear, the tie going to
/// the even significand. The sign bit is set exactly for negative integers.
pub proof fn law_single_is_nearest(t: int)
    requires
        -0x1_0000_0000 < t < 0x1_0000_0000,
        t != 0,
    ensures
        ({
            let a = (if t < 0 {
                -t
            } else {
                t
            }) as nat;
            let e = floor_log2(a);
            let bits = single_bits_of(t);
            let off = single_scaled_value(bits) - t * pow2(149);
            let step = if e <= 23 {
                0
            } else {
                pow2((e - 23) as nat) * pow2(149)
            };
            &&& bits < 0x1_0000_0000
            &&& (bits / 0x80_0000) % 256 != 255
            &&& (t < 0 <==> bits >= 0x8000_0000)
            &&& -step <= 2 * off <= step
            &&& e > 23 && (2 * off == step || 2 * off == -step) ==> bits % 2 == 0
        }),
{
    lemma2_to64();
    let a = (if t < 0 {
        -t
    } else {
        t
    }) as nat;
    let e = floor_log2(a);
    let sig = single_significand(a);
    let low = single_bits_of_magnitude(a);
    let bits = single_bits_of(t);
    let p = pow2(149);
    lemma_magnitude_scaled(a);
    lemma_signed_fields(t);
    // How far the encoded magnitude lies from the magnitude itself.
    let off = sig * pow2(e + 126) - a * p;
    let step = if e <= 23 {
        0
    } else {
        pow2((e - 23) as nat) * p
    };
    if e <= 23 {
        lemma_floor_log2_brackets(a);
        lemma_exact_significand(a);
    } else {
        let d = pow2((e - 23) as nat);
        lemma_pow2_pos((e - 23) as nat);
        lemma_pow2_adds((e - 23) as nat, 149);
        lemma_pow2_pos(149);
        lemma_round_half_even_error(a, d);
        let x = sig * d - a;
        assert(sig * (d * p) - a * p == x * p) by (nonlinear_arith)
            requires
                x == sig * d - a,
        ;
        assert(-(d * p) <= 2 * (x * p) <= d * p) by (nonlinear_arith)
            requires
                -(d as int) <= 2 * x <= d,
                p > 0,
        ;
        assert(2 * (x * p) == d * p ==> 2 * x == d) by (nonlinear_arith)
            requires
                p > 0,
        ;
        assert(2 * (x * p) == -(d * p) ==> 2 * x == -(d as int)) by (nonlinear_arith)
            requires
                p > 0,
        ;
    }
    assert(-step <= 2 * off <= step);
    if t < 0 {
        assert(single_scaled_value(bits) == -(sig * pow2(e + 126)));
        assert(-(a * p) == (-a) * p) by (nonlinear_arith);
        assert(single_scaled_value(bits) - t * p == -off);
    } else {
        assert(single_scaled_value(bits) - t * p == off);
    }
}

/// The sign bit sits on top of the pattern of the magnitude and changes
/// nothing below it.
pub proof fn lemma_signed_fields(t: int)
    requires
        -0x1_0000_0000 < t < 0x1_0000_0000,
        t != 0,
    ensures
        ({
            let a = (if t < 0 {
                -t
            } else {
                t
            }) as nat;
            let low = single_bits_of_magnitude(a);
            let bits = single_bits_of(t);
            &&& bits < 0x1_0000_0000
            &&& (t < 0 <==> bits >= 0x8000_0000)
            &&& (bits / 0x80_0000) % 256 == (low / 0x80_0000) % 256
            &&& bits % 0x80_0000 == low % 0x80_0000
            &&& bits % 2 == low % 2
            &&& single_scaled_value(bits) == if t < 0 {
                -single_scaled_value(low)
            } else {
                single_scaled_value(low)
            }
        }),
{
    let a = (if t < 0 {
        -t
    } else {
        t
    }) as nat;
    let low = single_bits_of_magnitude(a);
    let bits = single_bits_of(t);
    lemma_magnitude_scaled(a);
    if t < 0 {
        assert(bits == 0x8000_0000 + low);
        let hi = low / 0x80_0000;
        let fraction = low % 0x80_0000;
        assert(bits / 0x80_0000 == 256 + hi && bits % 0x80_0000 == fraction) by (nonlinear_arith)
            requires
                bits == 0x8000_0000 + low,
                hi == low / 0x80_0000,
                fraction == low % 0x80_0000,
                0 <= low,
        ;
        assert(bits / 0x8000_0000 == 1);
        assert(low / 0x8000_0000 == 0);
    } else {
        assert(bits == low);
        assert(low / 0x8000_0000 == 0);
    }
}

/// Every integer that is itself a single-precision number survives the
/// conversion: the pattern produced for it encodes exactly that integer.
pub proof fn law_single_round_trip(t: int)
    requires
        -0x1_0000_0000 < t < 0x1_0000_0000,
        single_representable(t),
    ensures
        single_bits_of(t) < 0x1_0000_0000,
        (single_bits_of(t) / 0x80_0000) % 256 != 255,
        single_scaled_value(single_bits_of(t)) == t * pow2(149),
{
    let a = (if t < 0 {
        -t
    } else {
        t
    }) as nat;
    if a == 0 {
        assert(single_bits_of(t) == 0);
    } else {
        lemma_exact_significand(a);
        lemma_magnitude_scaled(a);
        lemma_signed_fields(t);
        if t < 0 {
            assert(-(a * pow2(149)) == (-a) * pow2(149)) by (nonlinear_arith);
        }
    }
}

/// Every integer from `-2^24` to `2^24` is itself a single-precision number.
pub proof fn law_small_integers_are_representable(t: int)
    requires
        -0x100_0000 <= t <= 0x100_0000,
    ensures
        single_representable(t),
{
    lemma2_to64();
    let a = (if t < 0 {
        -t
    } else {
        t
    }) as nat;
    if a == 0x100_0000 {
        assert(floor_log2(a) == 24) by {
            reveal_with_fuel(floor_log2, 26);
        }
        assert(pow2(1) == 2);
        assert(a % 2 == 0);
    } else if a > 0 {
        lemma_floor_log2_below(a, 24);
        assert(floor_log2(a) <= 23);
    } else {
        assert(floor_log2(a) == 0);
    }
}

/// `2^e` as a machine integer.
pub(crate) fn power_of_two(e: u32) -> (p: u64)
    requires
        e <= 62,
    ensures
        p == pow2(e as nat),
        0 < p <= 0x4000_0000_0000_0000,
{
    let mut p: u64 = 1;
    let mut k: u32 = 0;
    proof {
        lemma2_to64();
        vstd::arithmetic::power2::lemma2_to64_rest();
    }
    while k < e
        invariant
            k <= e <= 62,
            p == pow2(k as nat),
            0 < p <= pow2(62),
            pow2(62) == 0x4000_0000_0000_0000,
        decreases e - k,
    {
        proof {
            lemma_pow2_unfold((k + 1) as nat);
            if k + 1 < 62 {
                vstd::arithmetic::power2::lemma_pow2_strictly_increases((k + 1) as nat, 62);
            }
        }
        p = p * 2;
        k = k + 1;
    }
    p
}

/// Index of the highest set bit of a positive number.
fn highest_bit(a: u64) -> (e: u32)
    requires
        0 < a <= 0x8000_0000,
    ensures
        e == floor_log2(a as nat),
        e <= 31,
{
    let mut e: u32 = 0;
    let mut rest: u64 = a;
    proof {
        lemma2_to64();
        lemma_floor_log2_below(a as nat, 32);
    }
    while rest >= 2
        invariant
            rest >= 1,
            floor_log2(a as nat) == e + floor_log2(rest as nat),
            floor_log2(a as nat) < 32,
        decreases rest,
    {
        rest = rest / 2;
        e = e + 1;
    }
    e
}

/// `n / d` rounded to nearest, ties to even.
fn divide_half_even(n: u64, d: u64) -> (q: u64)
    requires
        0 < d <= 0x4000_0000_0000_0000,
        n <= 0x1_0000_0000,
    ensures
        q == round_half_even(n as nat, d as nat),
{
    let q = n / d;
    let r = n % d;
    if 2 * r > d || (2 * r == d && q % 2 == 1) {
        q + 1
    } else {
        q
    }
}

/// Bit pattern of the single-precision number nearest to `value`, the result
/// of converting the integer to single precision and reading its bits.
pub fn single_bits(value: i32) -> (bits: u32)
    ensures
        bits == single_bits_of(value as int),
{
    if value == 0 {
        return 0;
    }
    let negative = value < 0;
    let wide: i64 = value as i64;
    let magnitude: u64 = if negative {
        (0 - wide) as u64
    } else {
        wide as u64
    };
    let exponent = highest_bit(magnitude);
    proof {
        lemma_significand_range(magnitude as nat);
    }
    let significand: u64 = if exponent <= FRACTION_BITS {
        magnitude * power_of_two(FRACTION_BITS - exponent)
    } else {
        divide_half_even(magnitude, power_of_two(exponent - FRACTION_BITS))
    };
    let unsigned: u64 = (exponent as u64 + EXPONENT_BIAS as u64) * HIDDEN_BIT + significand
        - HIDDEN_BIT;
    if negative {
        (unsigned + SIGN_BIT) as u32
    } else {
        unsigned as u32
    }
}

} // verus!
