//! Fixed-width readings for the console monitor's status line.

use crate::codec::{clamp, clamp_int};
use crate::text::{digit_char, digit_str};
use vstd::prelude::*;
use vstd::string::StringExecFns;

verus! {

/// Largest reading the three-digit field can show.
pub const FIELD_MAX: i32 = 999;

/// The three decimal digits of `n`, zero-padded.
pub open spec fn three_digits(n: int) -> Seq<char>
    recommends
        0 <= n <= 999,
{
    seq![digit_char(n / 100), digit_char((n / 10) % 10), digit_char(n % 10)]
}

/// Formats a reading as exactly three decimal digits: the value is clamped to
/// `0..=999` and zero-padded on the left.
pub fn fmt3(v: i32) -> (text: String)
    ensures
        text@ == three_digits(clamp_int(v as int, 0, 999)),
{
    let x = clamp(v, 0, FIELD_MAX);
    let mut text = String::new();
    text.append(digit_str((x / 100) as u8));
    text.append(digit_str(((x / 10) % 10) as u8));
    text.append(digit_str((x % 10) as u8));
    assert(text@ =~= three_digits(x as int));
    text
}

} // verus!
