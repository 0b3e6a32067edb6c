use with_gpu::text::{
    chars_of, is_whitespace, parse_number_range, push_decimal, push_join, push_joined, trim_range,
};

fn decimal(n: u64) -> String {
    let mut out = String::new();
    push_decimal(&mut out, n);
    out
}

fn parse(text: &str, max: u64) -> Option<u64> {
    let chars: Vec<char> = text.chars().collect();
    parse_number_range(&chars, 0, chars.len(), max)
}

#[test]
fn decimal_notation_has_no_sign_and_no_leading_zeros() {
    assert_eq!(decimal(0), "0");
    assert_eq!(decimal(7), "7");
    assert_eq!(decimal(10), "10");
    assert_eq!(decimal(1234567890), "1234567890");
    assert_eq!(decimal(u64::MAX), "18446744073709551615");
    let mut out = String::from("pid ");
    push_decimal(&mut out, 4242);
    assert_eq!(out, "pid 4242");
}

#[test]
fn decimal_notation_agrees_with_the_standard_formatting() {
    let mut n: u64 = 1;
    for _ in 0..200 {
        assert_eq!(decimal(n), format!("{}", n));
        assert_eq!(decimal(n - 1), format!("{}", n - 1));
        n = n.wrapping_mul(6364136223846793005).wrapping_add(1442695040888963407) | 1;
    }
    for n in 0..2000u64 {
        assert_eq!(decimal(n), n.to_string());
    }
}

#[test]
fn a_number_written_out_is_read_back() {
    for n in [0u64, 1, 9, 10, 99, 100, 4294967295, 4294967296, u64::MAX] {
        assert_eq!(parse(&decimal(n), u64::MAX), Some(n));
        assert_eq!(parse(&decimal(n), n), Some(n));
        if n > 0 {
            assert_eq!(parse(&decimal(n), n - 1), None);
        }
    }
}

#[test]
fn numbers_take_an_optional_plus_and_digits_only() {
    assert_eq!(parse("0", 10), Some(0));
    assert_eq!(parse("+0", 10), Some(0));
    assert_eq!(parse("0010", 10), Some(10));
    assert_eq!(parse("11", 10), None);
    assert_eq!(parse("", 10), None);
    assert_eq!(parse("+", 10), None);
    assert_eq!(parse("-1", 10), None);
    assert_eq!(parse("-0", 10), None);
    assert_eq!(parse("+-1", 10), None);
    assert_eq!(parse("1+", 10), None);
    assert_eq!(parse(" 1", 10), None);
    assert_eq!(parse("1 ", 10), None);
    assert_eq!(parse("1a", 10), None);
    assert_eq!(parse("⑤", 10), None);
    assert_eq!(parse("18446744073709551615", u64::MAX), Some(u64::MAX));
    assert_eq!(parse("18446744073709551616", u64::MAX), None);
    assert_eq!(parse("000000000000000000000000000000007", 7), Some(7));
    assert_eq!(parse("99999999999999999999999999999999999999x", u64::MAX), None);
}

#[test]
fn numbers_agree_with_the_standard_parsing() {
    let texts = [
        "", "0", "+0", "-0", "1", "+1", "-1", "4294967295", "4294967296", "+4294967295",
        "18446744073709551615", "18446744073709551616", "00000000004294967295", "12a", "a12",
        "1 2", " ", "+", "++", "+-", "1e3", "0x1", "٣", "１", "4_2", "42\n",
    ];
    for text in texts {
        assert_eq!(parse(text, u32::MAX as u64), text.parse::<u32>().ok().map(u64::from), "{:?}", text);
        assert_eq!(parse(text, u64::MAX), text.parse::<u64>().ok(), "{:?}", text);
    }
}

#[test]
fn a_number_is_read_from_the_middle_of_a_text() {
    let chars: Vec<char> = "gpu-12.lock".chars().collect();
    assert_eq!(parse_number_range(&chars, 4, 6, 100), Some(12));
    assert_eq!(parse_number_range(&chars, 4, 5, 100), Some(1));
    assert_eq!(parse_number_range(&chars, 4, 4, 100), None);
    assert_eq!(parse_number_range(&chars, 3, 6, 100), None);
    assert_eq!(parse_number_range(&chars, 4, 7, 100), None);
}

#[test]
fn white_space_is_what_the_standard_library_takes_for_it() {
    for code in 0..=0x10FFFFu32 {
        if let Some(c) = char::from_u32(code) {
            assert_eq!(is_whitespace(c), c.is_whitespace(), "U+{:04X}", code);
        }
    }
}

#[test]
fn trimming_takes_white_space_off_both_ends_only() {
    let cases = [
        "", " ", "a", " a", "a ", "  a b  ", "\t\n x \r\n", "\u{a0}1\u{3000}", "\u{200b}1",
        "   ", "a\u{2028}", "\u{85}\u{1680}z z\u{205f}\u{202f}",
    ];
    for text in cases {
        let chars: Vec<char> = text.chars().collect();
        let (lo, hi) = trim_range(&chars, 0, chars.len());
        let got: String = chars[lo..hi].iter().collect();
        assert_eq!(got, text.trim(), "{:?}", text);
    }
    let chars: Vec<char> = "ab  cd  ef".chars().collect();
    assert_eq!(trim_range(&chars, 2, 8), (4, 6));
    assert_eq!(trim_range(&chars, 2, 4), (4, 4));
    assert_eq!(trim_range(&chars, 5, 5), (5, 5));
}

#[test]
fn chars_of_gives_every_character() {
    assert_eq!(chars_of(""), Vec::<char>::new());
    assert_eq!(chars_of("a≤b"), vec!['a', '≤', 'b']);
    assert_eq!(chars_of("gpu-0.lock").len(), 10);
}

#[test]
fn joining_puts_the_separator_between_each_two() {
    let mut out = String::from(">");
    push_joined(&mut out, &[3, 1, 20]);
    assert_eq!(out, ">3,1,20");
    let mut none = String::from(">");
    push_joined(&mut none, &[]);
    assert_eq!(none, ">");
    let mut text = String::new();
    push_join(&mut text, &vec!["a".to_string(), String::new(), "c".to_string()], ", ");
    assert_eq!(text, "a, , c");
    let mut single = String::from("x");
    push_join(&mut single, &vec!["y".to_string()], "--");
    assert_eq!(single, "xy");
    let mut empty = String::from("x");
    push_join(&mut empty, &Vec::new(), "--");
    assert_eq!(empty, "x");
}
