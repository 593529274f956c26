use ryzenmaster_monitor::hex::{parse_hex_bytes, parse_payload_hex, HexError};

#[test]
fn hex_pairs_become_bytes() {
    assert_eq!(parse_hex_bytes("00ff10"), Ok(vec![0x00, 0xFF, 0x10]));
    assert_eq!(parse_hex_bytes("DeadBEEF"), Ok(vec![0xDE, 0xAD, 0xBE, 0xEF]));
    assert_eq!(parse_hex_bytes(""), Ok(vec![]));
}

#[test]
fn other_characters_are_passed_over() {
    assert_eq!(parse_hex_bytes("de:ad be-ef"), Ok(vec![0xDE, 0xAD, 0xBE, 0xEF]));
    assert_eq!(parse_hex_bytes("0x10, 0x20"), Ok(vec![0x01, 0x00, 0x20]));
    // A separator inside a pair does not split it.
    assert_eq!(parse_hex_bytes("a:b"), Ok(vec![0xAB]));
    assert_eq!(parse_hex_bytes("越1z2"), Ok(vec![0x12]));
    assert_eq!(parse_hex_bytes("xyz"), Ok(vec![]));
}

#[test]
fn an_odd_number_of_digits_is_refused() {
    assert_eq!(parse_hex_bytes("a"), Err(HexError::OddDigits));
    assert_eq!(parse_hex_bytes("abc"), Err(HexError::OddDigits));
    assert_eq!(parse_hex_bytes("1:2:3"), Err(HexError::OddDigits));
    assert_eq!(parse_hex_bytes("0x1"), Ok(vec![0x01]));
    assert_eq!(parse_payload_hex("abc"), Err(HexError::OddDigits));
}

#[test]
fn a_payload_has_one_to_63_bytes() {
    assert_eq!(parse_payload_hex("01"), Ok(vec![1]));
    assert_eq!(parse_payload_hex(&"ab".repeat(63)), Ok(vec![0xAB; 63]));
    assert_eq!(parse_payload_hex(&"ab".repeat(64)), Err(HexError::TooLarge { length: 64 }));
    assert_eq!(parse_payload_hex(""), Err(HexError::Empty));
    assert_eq!(parse_payload_hex("--"), Err(HexError::Empty));
}

#[test]
fn hex_errors_in_words() {
    assert_eq!(
        HexError::OddDigits.message(),
        "Payload hex string must contain an even number of digits."
    );
    assert_eq!(
        HexError::TooLarge { length: 64 }.message(),
        "Payload is too large (64 bytes). Maximum supported is 63."
    );
    assert_eq!(HexError::Empty.message(), "Payload cannot be empty.");
}
