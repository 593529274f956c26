use ryzenmaster_monitor::args::{
    find_arg_value, has_flag, parse_count, parse_interval, parse_u16_arg, parse_u16_trimmed,
    parse_u16_value, required_arg, run_mode, ArgError, RunMode,
};
use ryzenmaster_monitor::number::NumberError;

fn args(items: &[&str]) -> Vec<String> {
    items.iter().map(|s| s.to_string()).collect()
}

#[test]
fn value_follows_the_first_occurrence() {
    let a = args(&["prog", "--vid", "0x3633", "--pid", "10", "--vid", "7"]);
    assert_eq!(find_arg_value(&a, "--vid"), Some("0x3633"));
    assert_eq!(find_arg_value(&a, "--pid"), Some("10"));
    assert_eq!(find_arg_value(&a, "--count"), None);
    assert_eq!(find_arg_value(&a, "prog"), Some("--vid"));
}

#[test]
fn a_name_in_last_place_has_no_value() {
    let a = args(&["--pid", "10", "--vid"]);
    assert_eq!(find_arg_value(&a, "--vid"), None);
    // The first occurrence decides, even where a later one has a value.
    let b = args(&["x", "--vid"]);
    assert_eq!(find_arg_value(&b, "--vid"), None);
    assert_eq!(find_arg_value(&[], "--vid"), None);
}

#[test]
fn a_value_may_itself_be_a_name() {
    let a = args(&["--vid", "--vid", "5"]);
    assert_eq!(find_arg_value(&a, "--vid"), Some("--vid"));
}

#[test]
fn u16_values_decimal_and_hexadecimal() {
    assert_eq!(parse_u16_value("0"), Ok(0));
    assert_eq!(parse_u16_value("13875"), Ok(13875));
    assert_eq!(parse_u16_value("65535"), Ok(65535));
    assert_eq!(parse_u16_value("0x3633"), Ok(0x3633));
    assert_eq!(parse_u16_value("0x000A"), Ok(10));
    assert_eq!(parse_u16_value("0xffff"), Ok(0xFFFF));
    assert_eq!(parse_u16_value("0xFfFf"), Ok(0xFFFF));
    assert_eq!(parse_u16_value("+7"), Ok(7));
    assert_eq!(parse_u16_value("0x+7"), Ok(7));
}

#[test]
fn u16_values_ignore_white_space_around_them() {
    assert_eq!(parse_u16_value("  42 "), Ok(42));
    assert_eq!(parse_u16_value("\t0x10\n"), Ok(16));
    assert_eq!(parse_u16_value("4 2"), Err(NumberError::InvalidDigit));
    assert_eq!(parse_u16_value("0x 10"), Err(NumberError::InvalidDigit));
    assert_eq!(parse_u16_value("   "), Err(NumberError::Empty));
    // Without the trimming step nothing is ignored.
    assert_eq!(parse_u16_trimmed("42"), Ok(42));
    assert_eq!(parse_u16_trimmed(" 42"), Err(NumberError::InvalidDigit));
    assert_eq!(parse_u16_trimmed("42 "), Err(NumberError::InvalidDigit));
}

#[test]
fn u16_values_that_are_none() {
    assert_eq!(parse_u16_value(""), Err(NumberError::Empty));
    assert_eq!(parse_u16_value("0x"), Err(NumberError::Empty));
    assert_eq!(parse_u16_value("65536"), Err(NumberError::Overflow));
    assert_eq!(parse_u16_value("0x10000"), Err(NumberError::Overflow));
    assert_eq!(parse_u16_value("0X10"), Err(NumberError::InvalidDigit));
    assert_eq!(parse_u16_value("-1"), Err(NumberError::InvalidDigit));
    assert_eq!(parse_u16_value("ff"), Err(NumberError::InvalidDigit));
    assert_eq!(parse_u16_value("0xg"), Err(NumberError::InvalidDigit));
    assert_eq!(parse_u16_value("x"), Err(NumberError::InvalidDigit));
}

fn reference_u16(value: &str) -> Result<u16, String> {
    let normalized = value.trim();
    if let Some(hex) = normalized.strip_prefix("0x") {
        u16::from_str_radix(hex, 16).map_err(|err| err.to_string())
    } else {
        normalized.parse::<u16>().map_err(|err| err.to_string())
    }
}

#[test]
fn u16_values_agree_with_the_standard_parsers() {
    for text in [
        "", " ", "0", "0x", "0x0", " 0x1f ", "0x1g", "65535", "65536", "0xffff", "0x10000", "+1",
        "0x+1", "-1", "0x-1", "１２", "0x0x1", "00x1", "x", "\u{a0}12\u{a0}", "12\u{200b}",
    ] {
        let ours = parse_u16_value(text).map_err(|e| e.text().to_string());
        assert_eq!(ours, reference_u16(text), "text {text:?}");
    }
}

#[test]
fn u16_argument() {
    let a = args(&["--vid", "0x3633", "--pid", " 10 ", "--bad", "7x", "--last"]);
    assert_eq!(parse_u16_arg(&a, "--vid"), Ok(0x3633));
    assert_eq!(parse_u16_arg(&a, "--pid"), Ok(10));
    assert_eq!(
        parse_u16_arg(&a, "--none"),
        Err(ArgError::MissingArgument { name: "--none".to_string() })
    );
    assert_eq!(
        parse_u16_arg(&a, "--last"),
        Err(ArgError::MissingArgument { name: "--last".to_string() })
    );
    assert_eq!(
        parse_u16_arg(&a, "--bad"),
        Err(ArgError::InvalidValue {
            name: "--bad".to_string(),
            value: "7x".to_string(),
            reason: NumberError::InvalidDigit,
        })
    );
}

#[test]
fn interval_defaults_to_a_second() {
    assert_eq!(parse_interval(&args(&["--vid", "1"])), Ok(1000));
    assert_eq!(parse_interval(&[]), Ok(1000));
    assert_eq!(parse_interval(&args(&["--interval-ms"])), Ok(1000));
}

#[test]
fn interval_is_read_in_milliseconds() {
    assert_eq!(parse_interval(&args(&["--interval-ms", "250"])), Ok(250));
    assert_eq!(parse_interval(&args(&["--interval-ms", "1"])), Ok(1));
    assert_eq!(
        parse_interval(&args(&["--interval-ms", "18446744073709551615"])),
        Ok(u64::MAX)
    );
}

#[test]
fn interval_errors() {
    assert_eq!(parse_interval(&args(&["--interval-ms", "0"])), Err(ArgError::ZeroInterval));
    assert_eq!(parse_interval(&args(&["--interval-ms", "000"])), Err(ArgError::ZeroInterval));
    assert_eq!(
        parse_interval(&args(&["--interval-ms", " 5"])),
        Err(ArgError::InvalidValue {
            name: "--interval-ms".to_string(),
            value: " 5".to_string(),
            reason: NumberError::InvalidDigit,
        })
    );
    assert_eq!(
        parse_interval(&args(&["--interval-ms", ""])),
        Err(ArgError::InvalidValue {
            name: "--interval-ms".to_string(),
            value: "".to_string(),
            reason: NumberError::Empty,
        })
    );
    assert_eq!(
        parse_interval(&args(&["--interval-ms", "18446744073709551616"])),
        Err(ArgError::InvalidValue {
            name: "--interval-ms".to_string(),
            value: "18446744073709551616".to_string(),
            reason: NumberError::Overflow,
        })
    );
    assert_eq!(
        parse_interval(&args(&["--interval-ms", "0x10"])),
        Err(ArgError::InvalidValue {
            name: "--interval-ms".to_string(),
            value: "0x10".to_string(),
            reason: NumberError::InvalidDigit,
        })
    );
}

#[test]
fn count_is_optional_and_never_zero() {
    assert_eq!(parse_count(&args(&["--vid", "1"])), Ok(None));
    assert_eq!(parse_count(&args(&["--count", "3"])), Ok(Some(3)));
    assert_eq!(parse_count(&args(&["--count", "+3"])), Ok(Some(3)));
    assert_eq!(parse_count(&args(&["--count", "0"])), Err(ArgError::ZeroCount));
    assert_eq!(
        parse_count(&args(&["--count", "many"])),
        Err(ArgError::InvalidValue {
            name: "--count".to_string(),
            value: "many".to_string(),
            reason: NumberError::InvalidDigit,
        })
    );
    let max = usize::MAX.to_string();
    assert_eq!(parse_count(&args(&["--count", &max])), Ok(Some(usize::MAX)));
    let over = format!("{}0", usize::MAX);
    assert_eq!(
        parse_count(&args(&["--count", &over])),
        Err(ArgError::InvalidValue {
            name: "--count".to_string(),
            value: over.clone(),
            reason: NumberError::Overflow,
        })
    );
}

#[test]
fn argument_errors_in_words() {
    assert_eq!(
        ArgError::MissingArgument { name: "--vid".to_string() }.message(),
        "Missing required argument --vid"
    );
    let value = "7x";
    let err = value.parse::<u16>().unwrap_err();
    assert_eq!(
        ArgError::InvalidValue {
            name: "--vid".to_string(),
            value: value.to_string(),
            reason: NumberError::InvalidDigit,
        }
        .message(),
        format!("Invalid value for --vid ({value}): {err}")
    );
    assert_eq!(ArgError::ZeroInterval.message(), "Interval must be greater than zero.");
    assert_eq!(ArgError::ZeroCount.message(), "Count must be greater than zero.");
}

#[test]
fn flags_anywhere_among_the_arguments() {
    let a = args(&["prog", "--run", "x"]);
    assert!(has_flag(&a, "--run"));
    assert!(has_flag(&a, "x"));
    assert!(!has_flag(&a, "--service"));
    assert!(!has_flag(&a, "--ru"));
    assert!(!has_flag(&[], "--run"));
}

#[test]
fn service_mode_comes_before_run() {
    assert_eq!(run_mode(&args(&["prog"])), RunMode::Menu);
    assert_eq!(run_mode(&args(&["prog", "--run"])), RunMode::Monitor);
    assert_eq!(run_mode(&args(&["prog", "--service"])), RunMode::Service);
    assert_eq!(run_mode(&args(&["prog", "--run", "--service"])), RunMode::Service);
    assert_eq!(run_mode(&[]), RunMode::Menu);
}

#[test]
fn a_required_argument_must_have_a_value() {
    let a = args(&["--temp", "45.5", "--util"]);
    assert_eq!(required_arg(&a, "--temp"), Ok("45.5"));
    assert_eq!(
        required_arg(&a, "--util"),
        Err(ArgError::MissingArgument { name: "--util".to_string() })
    );
    assert_eq!(
        required_arg(&a, "--power"),
        Err(ArgError::MissingArgument { name: "--power".to_string() })
    );
}
