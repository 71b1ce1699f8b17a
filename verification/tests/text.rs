use timetable::text::{
    chars_of, decimal_string, is_space_char, parse_number, same_text, split_on, trim,
};

#[test]
fn chars_of_gives_each_character() {
    assert_eq!(chars_of("añb"), vec!['a', 'ñ', 'b']);
    assert_eq!(chars_of(""), Vec::<char>::new());
}

#[test]
fn same_text_compares_contents() {
    assert!(same_text("Math", "Math"));
    assert!(!same_text("Math", "math"));
    assert!(!same_text("Math", "Maths"));
    assert!(same_text("", ""));
}

#[test]
fn white_space_is_the_unicode_set() {
    for c in [' ', '\t', '\n', '\r', '\u{0B}', '\u{0C}', '\u{85}', '\u{A0}', '\u{1680}',
        '\u{2000}', '\u{200A}', '\u{2028}', '\u{2029}', '\u{202F}', '\u{205F}', '\u{3000}']
    {
        assert!(is_space_char(c), "{:?}", c);
    }
    for c in ['a', '0', ',', '\u{200B}', '\u{1F}', '\u{2060}'] {
        assert!(!is_space_char(c), "{:?}", c);
    }
}

#[test]
fn white_space_agrees_with_std_on_every_character() {
    let mut code: u32 = 0;
    while code <= 0x10FFFF {
        if let Some(c) = char::from_u32(code) {
            assert_eq!(is_space_char(c), c.is_whitespace(), "U+{:04X}", code);
        }
        code += 1;
    }
}

#[test]
fn trim_removes_surrounding_white_space_only() {
    assert_eq!(trim("  Math \n"), "Math");
    assert_eq!(trim("period series,0 2 4\r\n"), "period series,0 2 4");
    assert_eq!(trim(" \t "), "");
    assert_eq!(trim(""), "");
    assert_eq!(trim("a b"), "a b");
    assert_eq!(trim("\u{3000}é\u{A0}"), "é");
}

#[test]
fn split_on_keeps_empty_pieces() {
    assert_eq!(split_on("Math,0,1", ','), vec!["Math", "0", "1"]);
    assert_eq!(split_on("", ','), vec![""]);
    assert_eq!(split_on(",", ','), vec!["", ""]);
    assert_eq!(split_on("a,,b,", ','), vec!["a", "", "b", ""]);
    assert_eq!(split_on("no separator", ','), vec!["no separator"]);
    assert_eq!(split_on("0 2 4", ' '), vec!["0", "2", "4"]);
}

#[test]
fn split_on_agrees_with_std() {
    for s in ["", ",", "a", "a,b", ",a,", "Math,0,1", "é,ü,,x", ",,,,"] {
        let expected: Vec<&str> = s.split(',').collect();
        assert_eq!(split_on(s, ','), expected);
    }
}

#[test]
fn parse_number_reads_decimal_digits() {
    assert_eq!(parse_number("0"), Some(0));
    assert_eq!(parse_number("7"), Some(7));
    assert_eq!(parse_number("42"), Some(42));
    assert_eq!(parse_number("007"), Some(7));
    assert_eq!(parse_number("+5"), Some(5));
}

#[test]
fn parse_number_refuses_what_is_no_number() {
    assert_eq!(parse_number(""), None);
    assert_eq!(parse_number("+"), None);
    assert_eq!(parse_number("-1"), None);
    assert_eq!(parse_number(" 1"), None);
    assert_eq!(parse_number("1 "), None);
    assert_eq!(parse_number("1a"), None);
    assert_eq!(parse_number("++1"), None);
    assert_eq!(parse_number("1+"), None);
    assert_eq!(parse_number("٣"), None);
}

#[test]
fn parse_number_stops_at_the_machine_limit() {
    let max = usize::MAX.to_string();
    assert_eq!(parse_number(&max), Some(usize::MAX));
    let mut over = max.clone();
    over.push('0');
    assert_eq!(parse_number(&over), None);
    let next = (usize::MAX as u128 + 1).to_string();
    assert_eq!(parse_number(&next), None);
}

#[test]
fn parse_number_agrees_with_std() {
    for s in ["", "+", "-", "0", "+0", "-0", "12", "1_000", "0x10", "99999999999999999999999",
        "18446744073709551615", "18446744073709551616", "4294967295", "4294967296", " 3", "3\n"]
    {
        assert_eq!(parse_number(s), s.parse::<usize>().ok(), "{:?}", s);
    }
}

#[test]
fn decimal_string_writes_without_leading_zeros() {
    assert_eq!(decimal_string(0), "0");
    assert_eq!(decimal_string(9), "9");
    assert_eq!(decimal_string(10), "10");
    assert_eq!(decimal_string(1234567890), "1234567890");
    assert_eq!(decimal_string(usize::MAX), usize::MAX.to_string());
}

#[test]
fn decimal_string_is_read_back_by_parse_number() {
    for n in [0usize, 1, 9, 10, 99, 100, 65535, usize::MAX - 1, usize::MAX] {
        assert_eq!(parse_number(&decimal_string(n)), Some(n));
    }
}
