use ryzenmaster_monitor::number::{
    digit_of, parse_unsigned, parse_unsigned_chars, NumberError, Radix,
};
use std::num::IntErrorKind;

fn kind_of(e: NumberError) -> IntErrorKind {
    match e {
        NumberError::Empty => IntErrorKind::Empty,
        NumberError::InvalidDigit => IntErrorKind::InvalidDigit,
        NumberError::Overflow => IntErrorKind::PosOverflow,
    }
}

const SAMPLES: [&str; 40] = [
    "", "0", "1", "9", "10", "42", "0042", "+5", "+", "-", "-5", "+-5", "++5", "5+", " 5", "5 ",
    "65535", "65536", "99999", "99999x", "6553x", "65535x", "655350x", "x", "0x10", "ff", "FF",
    "fFfF", "10000", "fffff", "g", "१२", "越", "1_000", "1.5", "1e3", "18446744073709551615",
    "18446744073709551616", "00000000000000000000000000001", "+0",
];

#[test]
fn decimal_u16_agrees_with_the_standard_parser() {
    for text in SAMPLES {
        let ours = parse_unsigned(text, Radix::Decimal, 65535);
        match text.parse::<u16>() {
            Ok(v) => assert_eq!(ours, Ok(v as u64), "text {text:?}"),
            Err(e) => {
                assert_eq!(kind_of(ours.unwrap_err()), *e.kind(), "text {text:?}");
            }
        }
    }
}

#[test]
fn hexadecimal_u16_agrees_with_the_standard_parser() {
    for text in SAMPLES {
        let ours = parse_unsigned(text, Radix::Hexadecimal, 65535);
        match u16::from_str_radix(text, 16) {
            Ok(v) => assert_eq!(ours, Ok(v as u64), "text {text:?}"),
            Err(e) => {
                assert_eq!(kind_of(ours.unwrap_err()), *e.kind(), "text {text:?}");
            }
        }
    }
}

#[test]
fn decimal_u64_agrees_with_the_standard_parser() {
    for text in SAMPLES {
        let ours = parse_unsigned(text, Radix::Decimal, u64::MAX);
        match text.parse::<u64>() {
            Ok(v) => assert_eq!(ours, Ok(v), "text {text:?}"),
            Err(e) => {
                assert_eq!(kind_of(ours.unwrap_err()), *e.kind(), "text {text:?}");
            }
        }
    }
}

#[test]
fn error_texts_are_the_standard_ones() {
    assert_eq!(NumberError::Empty.text(), "".parse::<u16>().unwrap_err().to_string());
    assert_eq!(NumberError::InvalidDigit.text(), "x".parse::<u16>().unwrap_err().to_string());
    assert_eq!(NumberError::Overflow.text(), "65536".parse::<u16>().unwrap_err().to_string());
}

#[test]
fn each_error_has_an_input() {
    assert_eq!(parse_unsigned("", Radix::Decimal, 10), Err(NumberError::Empty));
    assert_eq!(parse_unsigned("a", Radix::Decimal, 10), Err(NumberError::InvalidDigit));
    assert_eq!(parse_unsigned("11", Radix::Decimal, 10), Err(NumberError::Overflow));
    assert_eq!(parse_unsigned("10", Radix::Decimal, 10), Ok(10));
    assert_eq!(parse_unsigned("a", Radix::Hexadecimal, 10), Ok(10));
}

#[test]
fn the_first_offending_character_decides() {
    // The fifth digit overflows before the letter is reached.
    assert_eq!(parse_unsigned("99999x", Radix::Decimal, 65535), Err(NumberError::Overflow));
    // The letter is reached before anything overflows.
    assert_eq!(parse_unsigned("6553x", Radix::Decimal, 65535), Err(NumberError::InvalidDigit));
    // At one and the same character, a bad digit is named first.
    assert_eq!(parse_unsigned("65535x", Radix::Decimal, 65535), Err(NumberError::InvalidDigit));
}

#[test]
fn digits_by_radix() {
    assert_eq!(digit_of('0', Radix::Decimal), Some(0));
    assert_eq!(digit_of('9', Radix::Decimal), Some(9));
    assert_eq!(digit_of('a', Radix::Decimal), None);
    assert_eq!(digit_of('a', Radix::Hexadecimal), Some(10));
    assert_eq!(digit_of('F', Radix::Hexadecimal), Some(15));
    assert_eq!(digit_of('g', Radix::Hexadecimal), None);
    assert_eq!(digit_of('G', Radix::Hexadecimal), None);
    assert_eq!(digit_of('/', Radix::Hexadecimal), None);
    assert_eq!(digit_of(':', Radix::Hexadecimal), None);
    assert_eq!(digit_of('@', Radix::Hexadecimal), None);
    assert_eq!(digit_of('`', Radix::Hexadecimal), None);
    assert_eq!(digit_of('٣', Radix::Decimal), None);
    for code in 0u32..0x3000 {
        if let Some(c) = char::from_u32(code) {
            assert_eq!(digit_of(c, Radix::Decimal), c.to_digit(10));
            assert_eq!(digit_of(c, Radix::Hexadecimal), c.to_digit(16));
        }
    }
    assert_eq!(Radix::Decimal.base(), 10);
    assert_eq!(Radix::Hexadecimal.base(), 16);
}

#[test]
fn a_range_of_characters_can_be_read() {
    let chars: Vec<char> = "ab123cd".chars().collect();
    assert_eq!(parse_unsigned_chars(&chars, 2, 5, Radix::Decimal, 1000), Ok(123));
    assert_eq!(parse_unsigned_chars(&chars, 2, 2, Radix::Decimal, 1000), Err(NumberError::Empty));
    assert_eq!(parse_unsigned_chars(&chars, 0, 7, Radix::Hexadecimal, u64::MAX), Ok(0xab123cd));
    assert_eq!(
        parse_unsigned_chars(&chars, 2, 6, Radix::Decimal, 1000),
        Err(NumberError::InvalidDigit)
    );
}
