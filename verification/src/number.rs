//! Unsigned integers as text: an optional `+`, then digits, nothing else.
//!
//! The text is read left to right and the first character that cannot be
//! taken decides the error: a character that is no digit of the radix, or a
//! digit with which the number would pass the largest value allowed.

use crate::text::chars_of;
use vstd::prelude::*;

verus! {

/// Why a text is no number.
#[derive(Clone, Copy, Debug, PartialEq, Eq, Structural)]
pub enum NumberError {
    /// The text is empty.
    Empty,
    /// A character is no digit of the radix, or the text is a lone sign.
    InvalidDigit,
    /// The number is larger than the target type holds.
    Overflow,
}

/// The radix of a number's text.
#[derive(Clone, Copy, Debug, PartialEq, Eq, Structural)]
pub enum Radix {
    Decimal,
    Hexadecimal,
}

impl Radix {
    /// The base as a number.
    pub open spec fn base_of(self) -> int {
        match self {
            Radix::Decimal => 10,
            Radix::Hexadecimal => 16,
        }
    }

    /// The base as a number.
    pub fn base(&self) -> (base: u32)
        ensures
            base == self.base_of(),
    {
        match self {
            Radix::Decimal => 10,
            Radix::Hexadecimal => 16,
        }
    }
}

/// The value of `c` as a digit in `base`: `0-9`, then `a-z` or `A-Z` for ten
/// and up. `None` where `c` is no digit or its value does not fit the base.
pub open spec fn digit_value(c: char, base: int) -> Option<int> {
    let code = c as u32 as int;
    let value = if 48 <= code <= 57 {
        code - 48
    } else if 97 <= code <= 122 {
        code - 87
    } else if 65 <= code <= 90 {
        code - 55
    } else {
        36
    };
    if value < base {
        Some(value)
    } else {
        None
    }
}

/// Reads `digits` left to right onto the number `acc` read so far.
pub open spec fn scan_digits(digits: Seq<char>, base: int, max: int, acc: int) -> Result<
    int,
    NumberError,
>
    decreases digits.len(),
{
    if digits.len() == 0 {
        Ok(acc)
    } else {
        match digit_value(digits[0], base) {
            None => Err(NumberError::InvalidDigit),
            Some(d) => if acc * base + d > max {
                Err(NumberError::Overflow)
            } else {
                scan_digits(digits.drop_first(), base, max, acc * base + d)
            },
        }
    }
}

/// The number that `text` spells in `base`, if it is one and at most `max`.
pub open spec fn parse_unsigned_spec(text: Seq<char>, base: int, max: int) -> Result<
    int,
    NumberError,
> {
    if text.len() == 0 {
        Err(NumberError::Empty)
    } else if text.len() == 1 && (text[0] == '+' || text[0] == '-') {
        Err(NumberError::InvalidDigit)
    } else if text[0] == '+' {
        scan_digits(text.drop_first(), base, max, 0)
    } else {
        scan_digits(text, base, max, 0)
    }
}

/// The number that `digits` spell in `base`, digits that are none counting
/// as zero.
pub open spec fn number_value(digits: Seq<char>, base: int) -> int
    decreases digits.len(),
{
    if digits.len() == 0 {
        0
    } else {
        number_value(digits.drop_last(), base) * base + (match digit_value(digits.last(), base) {
            Some(d) => d,
            None => 0,
        })
    }
}

/// Whether every character of `digits` is a digit of `base`.
pub open spec fn all_digits(digits: Seq<char>, base: int) -> bool {
    forall|i: int| 0 <= i < digits.len() ==> (#[trigger] digit_value(digits[i], base)) is Some
}

/// Whether `result` is `expected`, the number taken as an integer.
pub open spec fn matches_parse(result: Result<u64, NumberError>, expected: Result<int, NumberError>) -> bool {
    match result {
        Ok(v) => expected == Ok::<int, NumberError>(v as int),
        Err(e) => expected == Err::<int, NumberError>(e),
    }
}

/// The number spelled by the front of a text is never negative and never
/// more than the number spelled by the whole.
pub proof fn lemma_number_value_grows(digits: Seq<char>, base: int, k: int)
    requires
        base >= 1,
        0 <= k <= digits.len(),
    ensures
        0 <= number_value(digits.take(k), base) <= number_value(digits, base),
    decreases digits.len() - k,
{
    if k == digits.len() {
        assert(digits.take(k) =~= digits);
        lemma_number_value_nonnegative(digits, base);
    } else {
        let front = digits.drop_last();
        lemma_number_value_grows(front, base, k);
        assert(front.take(k) =~= digits.take(k));
        let v = number_value(front, base);
        assert(v * base >= v) by (nonlinear_arith)
            requires
                v >= 0,
                base >= 1,
        ;
    }
}

/// The number spelled by a text is never negative.
pub proof fn lemma_number_value_nonnegative(digits: Seq<char>, base: int)
    requires
        base >= 1,
    ensures
        0 <= number_value(digits, base),
    decreases digits.len(),
{
    if digits.len() > 0 {
        lemma_number_value_nonnegative(digits.drop_last(), base);
        let v = number_value(digits.drop_last(), base);
        assert(v * base >= 0) by (nonlinear_arith)
            requires
                v >= 0,
                base >= 1,
        ;
    }
}

/// What `scan_digits` makes of the whole text, given that the first `k`
/// characters are digits that spell no more than `max`.
proof fn lemma_scan_from(digits: Seq<char>, base: int, max: int, k: int)
    requires
        base >= 1,
        0 <= k <= digits.len(),
        all_digits(digits.take(k), base),
        number_value(digits.take(k), base) <= max,
    ensures
        scan_digits(digits, base, max, 0) == scan_digits(
            digits.skip(k),
            base,
            max,
            number_value(digits.take(k), base),
        ),
        match scan_digits(digits, base, max, 0) {
            Ok(v) => all_digits(digits, base) && v == number_value(digits, base) && v <= max,
            Err(NumberError::InvalidDigit) => !all_digits(digits, base),
            Err(NumberError::Overflow) => number_value(digits, base) > max,
            Err(NumberError::Empty) => false,
        },
    decreases digits.len() - k,
{
    let read = number_value(digits.take(k), base);
    lemma_scan_from_prefix(digits, base, max, k);
    if k == digits.len() {
        assert(digits.take(k) =~= digits);
        assert(digits.skip(k).len() == 0);
    } else {
        let rest = digits.skip(k);
        assert(rest[0] == digits[k]);
        assert(rest.drop_first() =~= digits.skip(k + 1));
        assert(digits.take(k + 1).drop_last() =~= digits.take(k));
        assert(digits.take(k + 1).last() == digits[k]);
        match digit_value(digits[k], base) {
            None => {
                assert(!all_digits(digits, base));
            },
            Some(d) => {
                assert(number_value(digits.take(k + 1), base) == read * base + d);
                if read * base + d > max {
                    lemma_number_value_grows(digits, base, k + 1);
                } else {
                    assert(all_digits(digits.take(k + 1), base)) by {
                        assert forall|i: int| 0 <= i < k + 1 implies (#[trigger] digit_value(
                            digits.take(k + 1)[i],
                            base,
                        )) is Some by {
                            if i < k {
                                assert(digits.take(k)[i] == digits.take(k + 1)[i]);
                            }
                        }
                    }
                    lemma_scan_from(digits, base, max, k + 1);
                }
            },
        }
    }
}

/// Reading the first `k` characters, all of them digits that spell no more
/// than `max`, leaves the number they spell and the rest of the text.
proof fn lemma_scan_from_prefix(digits: Seq<char>, base: int, max: int, k: int)
    requires
        base >= 1,
        0 <= k <= digits.len(),
        all_digits(digits.take(k), base),
        number_value(digits.take(k), base) <= max,
    ensures
        scan_digits(digits, base, max, 0) == scan_digits(
            digits.skip(k),
            base,
            max,
            number_value(digits.take(k), base),
        ),
    decreases k,
{
    if k == 0 {
        assert(digits.skip(0) =~= digits);
    } else {
        let before = digits.take(k - 1);
        assert(digits.take(k).drop_last() =~= before);
        assert(digits.take(k).last() == digits[k - 1]);
        assert(all_digits(before, base)) by {
            assert forall|i: int| 0 <= i < before.len() implies (#[trigger] digit_value(
                before[i],
                base,
            )) is Some by {
                assert(digits.take(k)[i] == before[i]);
            }
        }
        assert(digit_value(digits.take(k)[k - 1], base) is Some);
        lemma_number_value_nonnegative(before, base);
        let v = number_value(before, base);
        assert(v * base >= v) by (nonlinear_arith)
            requires
                v >= 0,
                base >= 1,
        ;
        lemma_scan_from_prefix(digits, base, max, k - 1);
        assert(digits.skip(k - 1)[0] == digits[k - 1]);
        assert(digits.skip(k - 1).drop_first() =~= digits.skip(k));
    }
}

/// What reading digits comes to. The result is the number that the digits
/// spell exactly when all of them are digits of the base and that number is
/// at most `max`. Otherwise a character is no digit, or the number is too
/// large; where both hold, the one met first from the left is named.
pub proof fn law_scan_digits_reads_the_number(digits: Seq<char>, base: int, max: int)
    requires
        base >= 1,
        max >= 0,
    ensures
        scan_digits(digits, base, max, 0) is Ok <==> all_digits(digits, base) && number_value(
            digits,
            base,
        ) <= max,
        scan_digits(digits, base, max, 0) matches Ok(v) ==> v == number_value(digits, base),
        scan_digits(digits, base, max, 0) == Err::<int, NumberError>(NumberError::InvalidDigit)
            ==> !all_digits(digits, base),
        scan_digits(digits, base, max, 0) == Err::<int, NumberError>(NumberError::Overflow)
            ==> number_value(digits, base) > max,
        scan_digits(digits, base, max, 0) != Err::<int, NumberError>(NumberError::Empty),
{
    assert(digits.take(0) =~= Seq::<char>::empty());
    lemma_scan_from(digits, base, max, 0);
}

/// The value of `c` as a digit of `radix`.
pub fn digit_of(c: char, radix: Radix) -> (digit: Option<u32>)
    ensures
        digit is Some <==> digit_value(c, radix.base_of()) is Some,
        digit matches Some(d) ==> digit_value(c, radix.base_of()) == Some(d as int),
{
    let code = c as u32;
    let value: u32 = if 48 <= code && code <= 57 {
        code - 48
    } else if 97 <= code && code <= 122 {
        code - 87
    } else if 65 <= code && code <= 90 {
        code - 55
    } else {
        36
    };
    if value < radix.base() {
        Some(value)
    } else {
        None
    }
}

/// Reads the characters of `text` from position `from` up to position `to`
/// as an unsigned number of at most `max`.
pub fn parse_unsigned_chars(text: &Vec<char>, from: usize, to: usize, radix: Radix, max: u64) -> (result:
    Result<u64, NumberError>)
    requires
        from <= to <= text@.len(),
    ensures
        matches_parse(
            result,
            parse_unsigned_spec(text@.subrange(from as int, to as int), radix.base_of(), max as int),
        ),
        result matches Ok(v) ==> v <= max,
{
    let ghost whole = text@.subrange(from as int, to as int);
    let ghost base = radix.base_of();
    if from == to {
        return Err(NumberError::Empty);
    }
    let first = text[from];
    assert(whole[0] == first);
    if to - from == 1 && (first == '+' || first == '-') {
        return Err(NumberError::InvalidDigit);
    }
    let mut i: usize = if first == '+' {
        from + 1
    } else {
        from
    };
    let ghost digits = text@.subrange(i as int, to as int);
    assert(first == '+' ==> digits =~= whole.drop_first());
    assert(first != '+' ==> digits =~= whole);
    let ghost expected = parse_unsigned_spec(whole, base, max as int);
    assert(expected == scan_digits(digits, base, max as int, 0));
    let mut acc: u64 = 0;
    while i < to
        invariant
            from <= i <= to <= text@.len(),
            acc <= max,
            base == radix.base_of(),
            expected == parse_unsigned_spec(
                text@.subrange(from as int, to as int),
                base,
                max as int,
            ),
            expected == scan_digits(
                text@.subrange(i as int, to as int),
                base,
                max as int,
                acc as int,
            ),
        decreases to - i,
    {
        let ghost rest = text@.subrange(i as int, to as int);
        assert(rest.len() > 0 && rest[0] == text@[i as int]);
        assert(rest.drop_first() =~= text@.subrange(i + 1, to as int));
        match digit_of(text[i], radix) {
            None => {
                return Err(NumberError::InvalidDigit);
            },
            Some(d) => {
                let wide: u128 = acc as u128 * radix.base() as u128 + d as u128;
                if wide > max as u128 {
                    return Err(NumberError::Overflow);
                }
                acc = wide as u64;
            },
        }
        i = i + 1;
    }
    assert(text@.subrange(i as int, to as int).len() == 0);
    Ok(acc)
}

/// Reads `text` as an unsigned number of at most `max`.
pub fn parse_unsigned(text: &str, radix: Radix, max: u64) -> (result: Result<u64, NumberError>)
    ensures
        matches_parse(result, parse_unsigned_spec(text@, radix.base_of(), max as int)),
        result matches Ok(v) ==> v <= max,
{
    let chars = chars_of(text);
    assert(chars@.subrange(0, chars@.len() as int) =~= text@);
    parse_unsigned_chars(&chars, 0, chars.len(), radix, max)
}

impl NumberError {
    /// The reason in words.
    pub open spec fn text_of(self) -> Seq<char> {
        match self {
            NumberError::Empty => "cannot parse integer from empty string"@,
            NumberError::InvalidDigit => "invalid digit found in string"@,
            NumberError::Overflow => "number too large to fit in target type"@,
        }
    }

    /// The reason in words.
    pub fn text(&self) -> (text: &'static str)
        ensures
            text@ == self.text_of(),
    {
        match self {
            NumberError::Empty => "cannot parse integer from empty string",
            NumberError::InvalidDigit => "invalid digit found in string",
            NumberError::Overflow => "number too large to fit in target type",
        }
    }
}

} // verus!
