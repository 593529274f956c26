//! Payloads written as hexadecimal text.

use crate::number::{digit_of, digit_value, Radix};
use crate::report::LD_MAX_PAYLOAD;
use crate::text::push_decimal;
use vstd::prelude::*;
use vstd::string::StringExecFns;

verus! {

/// Why a text gives no payload.
#[derive(Clone, Copy, Debug, PartialEq, Eq, Structural)]
pub enum HexError {
    /// The text holds an odd number of hexadecimal digits.
    OddDigits,
    /// The text gives more bytes than a report carries.
    TooLarge { length: usize },
    /// The text holds no hexadecimal digit at all.
    Empty,
}

/// The values of the hexadecimal digits in `text`, in order. Every other
/// character is passed over, wherever it stands.
pub open spec fn hex_nibbles(text: Seq<char>) -> Seq<int>
    decreases text.len(),
{
    if text.len() == 0 {
        Seq::empty()
    } else {
        let before = hex_nibbles(text.drop_last());
        match digit_value(text.last(), 16) {
            Some(v) => before.push(v),
            None => before,
        }
    }
}

/// The bytes that pairs of digit values make, the first of a pair being the
/// high half. A last value without a partner is left out.
pub open spec fn paired(nibbles: Seq<int>) -> Seq<u8> {
    Seq::new(nibbles.len() / 2, |i: int| (nibbles[2 * i] * 16 + nibbles[2 * i + 1]) as u8)
}

/// What `parse_hex_bytes` returns for `text`.
pub open spec fn parse_hex_bytes_spec(text: Seq<char>) -> Result<Seq<u8>, HexError> {
    if hex_nibbles(text).len() % 2 == 0 {
        Ok(paired(hex_nibbles(text)))
    } else {
        Err(HexError::OddDigits)
    }
}

/// What `parse_payload_hex` returns for `text`.
pub open spec fn parse_payload_hex_spec(text: Seq<char>) -> Result<Seq<u8>, HexError> {
    match parse_hex_bytes_spec(text) {
        Err(e) => Err(e),
        Ok(bytes) => if bytes.len() > 63 {
            Err(HexError::TooLarge { length: bytes.len() as usize })
        } else if bytes.len() == 0 {
            Err(HexError::Empty)
        } else {
            Ok(bytes)
        },
    }
}

/// Whether `result` is `expected`, the bytes taken as a sequence.
pub open spec fn matches_bytes(result: Result<Vec<u8>, HexError>, expected: Result<Seq<u8>, HexError>) -> bool {
    match result {
        Ok(bytes) => expected == Ok::<Seq<u8>, HexError>(bytes@),
        Err(e) => expected == Err::<Seq<u8>, HexError>(e),
    }
}

impl HexError {
    /// The error in words.
    pub open spec fn text_of(self) -> Seq<char> {
        match self {
            HexError::OddDigits => "Payload hex string must contain an even number of digits."@,
            HexError::TooLarge { length } => "Payload is too large ("@ + crate::text::decimal_text(
                length as nat,
            ) + " bytes). Maximum supported is 63."@,
            HexError::Empty => "Payload cannot be empty."@,
        }
    }

    /// The error in words, as it is shown to the user.
    pub fn message(&self) -> (message: String)
        ensures
            message@ == self.text_of(),
    {
        match self {
            HexError::OddDigits => String::from_str(
                "Payload hex string must contain an even number of digits.",
            ),
            HexError::TooLarge { length } => {
                let mut message = String::from_str("Payload is too large (");
                push_decimal(&mut message, *length as u64);
                message.append(" bytes). Maximum supported is 63.");
                message
            },
            HexError::Empty => String::from_str("Payload cannot be empty."),
        }
    }
}

/// Every value that `hex_nibbles` gives is a hexadecimal digit's.
pub proof fn lemma_hex_nibbles_range(text: Seq<char>)
    ensures
        hex_nibbles(text).len() <= text.len(),
        forall|i: int| 0 <= i < hex_nibbles(text).len() ==> 0 <= #[trigger] hex_nibbles(text)[i] < 16,
    decreases text.len(),
{
    if text.len() > 0 {
        lemma_hex_nibbles_range(text.drop_last());
    }
}

/// Reads the hexadecimal digits of `value` two by two as bytes. Characters
/// that are no hexadecimal digits are passed over; an odd number of digits
/// is refused.
pub fn parse_hex_bytes(value: &str) -> (result: Result<Vec<u8>, HexError>)
    ensures
        matches_bytes(result, parse_hex_bytes_spec(value@)),
{
    let mut bytes: Vec<u8> = Vec::new();
    let mut high: Option<u8> = None;
    assert(value@.take(0) =~= Seq::<char>::empty());
    for c in it: value.chars()
        invariant
            it.seq() == value@,
            bytes@ == paired(hex_nibbles(value@.take(it.index() as int))),
            match high {
                Some(h) => hex_nibbles(value@.take(it.index() as int)).len() % 2 == 1 && h
                    == hex_nibbles(value@.take(it.index() as int)).last(),
                None => hex_nibbles(value@.take(it.index() as int)).len() % 2 == 0,
            },
    {
        let ghost before = hex_nibbles(value@.take(it.index() as int));
        let ghost after = hex_nibbles(value@.take(it.index() + 1));
        proof {
            assert(value@.take(it.index() + 1).drop_last() =~= value@.take(it.index() as int));
            assert(value@.take(it.index() + 1).last() == c);
            lemma_hex_nibbles_range(value@.take(it.index() as int));
        }
        match digit_of(c, Radix::Hexadecimal) {
            None => {
                assert(after == before);
            },
            Some(low) => {
                assert(after == before.push(low as int));
                match high {
                    None => {
                        high = Some(low as u8);
                        assert(paired(after) =~= paired(before));
                    },
                    Some(h) => {
                        bytes.push(h * 16 + low as u8);
                        high = None;
                        assert(bytes@ =~= paired(after));
                    },
                }
            },
        }
    }
    assert(value@.take(value@.len() as int) =~= value@);
    match high {
        Some(_) => Err(HexError::OddDigits),
        None => Ok(bytes),
    }
}

/// Reads a payload from hexadecimal text: at least one byte and at most 63.
pub fn parse_payload_hex(value: &str) -> (result: Result<Vec<u8>, HexError>)
    ensures
        matches_bytes(result, parse_payload_hex_spec(value@)),
{
    let bytes = match parse_hex_bytes(value) {
        Ok(bytes) => bytes,
        Err(e) => {
            return Err(e);
        },
    };
    if bytes.len() > LD_MAX_PAYLOAD {
        return Err(HexError::TooLarge { length: bytes.len() });
    }
    if bytes.len() == 0 {
        return Err(HexError::Empty);
    }
    Ok(bytes)
}

} // verus!
