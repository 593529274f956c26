use ryzenmaster_monitor::spacing::{
    char_is_separator, char_is_whitespace, clear_ranges, separator_flags, split_fields, trim,
    trim_bounds, white_space_flags,
};

fn flags(pattern: &str) -> Vec<bool> {
    pattern.chars().map(|c| c == '#').collect()
}

#[test]
fn bounds_take_set_flags_off_both_ends_only() {
    assert_eq!(trim_bounds(&flags("")), (0, 0));
    assert_eq!(trim_bounds(&flags(".")), (0, 1));
    assert_eq!(trim_bounds(&flags("#")), (1, 1));
    assert_eq!(trim_bounds(&flags("###")), (3, 3));
    assert_eq!(trim_bounds(&flags("##..#")), (2, 4));
    assert_eq!(trim_bounds(&flags(".#.")), (0, 3));
    assert_eq!(trim_bounds(&flags("#.#.#")), (1, 4));
    assert_eq!(trim_bounds(&flags("...")), (0, 3));
}

#[test]
fn runs_of_clear_flags() {
    assert_eq!(clear_ranges(&flags("")), vec![]);
    assert_eq!(clear_ranges(&flags("###")), vec![]);
    assert_eq!(clear_ranges(&flags("...")), vec![(0, 3)]);
    assert_eq!(clear_ranges(&flags("#..#.##...")), vec![(1, 3), (4, 5), (7, 10)]);
    assert_eq!(clear_ranges(&flags(".#.")), vec![(0, 1), (2, 3)]);
    assert_eq!(clear_ranges(&flags("..#")), vec![(0, 2)]);
}

#[test]
fn flags_follow_the_standard_notion_of_white_space() {
    assert_eq!(white_space_flags(" a\tb\n"), vec![true, false, true, false, true]);
    assert_eq!(white_space_flags("\u{a0}越\u{3000},"), vec![true, false, true, false]);
    assert_eq!(white_space_flags(""), Vec::<bool>::new());
    assert_eq!(separator_flags("1, 2"), vec![false, true, true, false]);
    assert_eq!(separator_flags(",a b"), vec![true, false, true, false]);
    let sample = "x \u{2003}y\u{200b},";
    let expected: Vec<bool> = sample.chars().map(|c| c.is_whitespace()).collect();
    assert_eq!(white_space_flags(sample), expected);
    let expected: Vec<bool> = sample.chars().map(|c| c == ',' || c.is_whitespace()).collect();
    assert_eq!(separator_flags(sample), expected);
}

#[test]
fn trim_takes_white_space_off_both_ends_only() {
    assert_eq!(trim("  42  "), "42");
    assert_eq!(trim("\t\n 0x3633\r\n"), "0x3633");
    assert_eq!(trim("4 2"), "4 2");
    assert_eq!(trim("42"), "42");
    assert_eq!(trim(""), "");
    assert_eq!(trim("   "), "");
    assert_eq!(trim("\u{a0}7\u{3000}"), "7");
    assert_eq!(trim(" 越 "), "越");
    for sample in ["", " ", " a", "a ", " a b ", "\u{2003}x\u{2003}", "x\u{200b}"] {
        assert_eq!(trim(sample), sample.trim());
    }
}

fn reference_fields(line: &str) -> Vec<String> {
    line.split(|ch: char| ch == ',' || ch.is_whitespace())
        .filter(|part| !part.is_empty())
        .map(|part| part.to_string())
        .collect()
}

#[test]
fn lines_split_at_commas_and_white_space() {
    assert_eq!(split_fields("45.5, 120 37\n"), vec!["45.5", "120", "37"]);
    assert_eq!(split_fields("45.5,120,37"), vec!["45.5", "120", "37"]);
    assert_eq!(split_fields(",,1,,\t2 ,"), vec!["1", "2"]);
    assert_eq!(split_fields(""), Vec::<String>::new());
    assert_eq!(split_fields(" , \n"), Vec::<String>::new());
    assert_eq!(split_fields("one"), vec!["one"]);
    for line in ["", ",", "a", "a,b", " a b ", "1.0\u{a0}2.0\u{3000}3.0", "温度,1", ",,a,, b ,"] {
        assert_eq!(split_fields(line), reference_fields(line), "line {line:?}");
    }
}

#[test]
fn white_space_is_what_the_standard_library_takes_for_it() {
    let mut count = 0;
    for code in 0..=0x10FFFFu32 {
        if let Some(c) = char::from_u32(code) {
            assert_eq!(char_is_whitespace(c), c.is_whitespace(), "code {code:#x}");
            assert_eq!(char_is_separator(c), c == ',' || c.is_whitespace(), "code {code:#x}");
            if char_is_whitespace(c) {
                count += 1;
            }
        }
    }
    assert_eq!(count, 25);
}

#[test]
fn the_white_space_characters_one_by_one() {
    for c in [
        '\t', '\n', '\u{b}', '\u{c}', '\r', ' ', '\u{85}', '\u{a0}', '\u{1680}', '\u{2000}',
        '\u{2005}', '\u{200a}', '\u{2028}', '\u{2029}', '\u{202f}', '\u{205f}', '\u{3000}',
    ] {
        assert!(char_is_whitespace(c), "code {:#x}", c as u32);
    }
    for c in [
        '\u{8}', '\u{e}', '\u{1f}', '!', '0', '7', 'x', ',', '\u{84}', '\u{86}', '\u{9f}',
        '\u{a1}', '\u{167f}', '\u{1681}', '\u{180e}', '\u{1fff}', '\u{200b}', '\u{2027}',
        '\u{202a}', '\u{202e}', '\u{2030}', '\u{205e}', '\u{2060}', '\u{2fff}', '\u{3001}',
        '\u{feff}', '越',
    ] {
        assert!(!char_is_whitespace(c), "code {:#x}", c as u32);
    }
    assert!(char_is_separator(','));
    assert!(char_is_separator(' '));
    assert!(!char_is_separator(';'));
    assert!(!char_is_separator('.'));
}
