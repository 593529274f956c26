use ryzenmaster_monitor::text::{
    chars_of, decimal_string, digit_str, hex_digit_str, push_decimal, push_hex4,
    push_signed_decimal, str_equal, substring,
};

#[test]
fn digits_as_text() {
    let all: Vec<&str> = (0..10).map(digit_str).collect();
    assert_eq!(all, vec!["0", "1", "2", "3", "4", "5", "6", "7", "8", "9"]);
}

#[test]
fn decimal_strings() {
    assert_eq!(decimal_string(0), "0");
    assert_eq!(decimal_string(9), "9");
    assert_eq!(decimal_string(10), "10");
    assert_eq!(decimal_string(64), "64");
    assert_eq!(decimal_string(1_000_000), "1000000");
    assert_eq!(decimal_string(u64::MAX), "18446744073709551615");
    let mut out = String::from("n=");
    push_decimal(&mut out, 405);
    assert_eq!(out, "n=405");
}

#[test]
fn chars_are_taken_one_by_one() {
    assert_eq!(chars_of(""), Vec::<char>::new());
    assert_eq!(chars_of("a1é越"), vec!['a', '1', 'é', '越']);
}

#[test]
fn equality_of_texts() {
    assert!(str_equal("", ""));
    assert!(str_equal("--vid", "--vid"));
    assert!(!str_equal("--vid", "--pid"));
    assert!(!str_equal("--vid", "--vi"));
    assert!(!str_equal("--vi", "--vid"));
    assert!(str_equal("温度", "温度"));
    assert!(!str_equal("温度", "温"));
}

#[test]
fn substrings_by_character() {
    assert_eq!(substring("hello", 1, 3), "el");
    assert_eq!(substring("é越x", 1, 2), "越");
    assert_eq!(substring("abc", 3, 3), "");
    assert_eq!(substring("abc", 0, 3), "abc");
}

#[test]
fn hexadecimal_digits_and_words() {
    let all: String = (0..16).map(hex_digit_str).collect();
    assert_eq!(all, "0123456789abcdef");
    for v in [0u16, 1, 0x000A, 0x3633, 0xABCD, 0xFFFF, 0x0F00] {
        let mut out = String::from("0x");
        push_hex4(&mut out, v);
        assert_eq!(out, format!("{v:#06x}"));
    }
}

#[test]
fn signed_decimal_numbers() {
    for n in [0, 1, -1, 9, -9, 10, -10, 405, -405, i32::MAX, i32::MIN] {
        let mut out = String::new();
        push_signed_decimal(&mut out, n);
        assert_eq!(out, n.to_string());
    }
}
