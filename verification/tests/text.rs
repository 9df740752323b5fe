use wcgw::tools::text::{
    char_is_whitespace, has_line_feed, leading_whitespace_len, parse_i32, push_decimal,
    str_is_blank, trailing_whitespace_len, trim, trim_start,
};

#[test]
fn whitespace_agrees_with_the_standard_library() {
    for code in 0u32..=0x10FFFF {
        if let Some(c) = char::from_u32(code) {
            assert_eq!(char_is_whitespace(c), c.is_whitespace());
        }
    }
}

#[test]
fn trimming_agrees_with_the_standard_library() {
    let samples = [
        "",
        " ",
        "abc",
        "  abc",
        "abc  ",
        " \t\r\n abc def \n\t ",
        "\u{3000}wide\u{a0}",
        "   \n\t  ",
        "é  é",
        "\n",
    ];
    for sample in samples {
        assert_eq!(trim(sample), sample.trim());
        assert_eq!(trim_start(sample), sample.trim_start());
        assert_eq!(str_is_blank(sample), sample.trim().is_empty());
        assert_eq!(
            leading_whitespace_len(sample),
            sample.chars().take_while(|c| c.is_whitespace()).count()
        );
        assert_eq!(
            trailing_whitespace_len(sample),
            sample.chars().rev().take_while(|c| c.is_whitespace()).count()
        );
    }
}

#[test]
fn trim_exact_values() {
    assert_eq!(trim("  echo hi  "), "echo hi");
    assert_eq!(trim_start("  echo hi  "), "echo hi  ");
    assert_eq!(leading_whitespace_len("  x "), 2);
    assert_eq!(trailing_whitespace_len("  x "), 1);
}

#[test]
fn line_feeds_are_found() {
    assert!(has_line_feed("a\nb"));
    assert!(has_line_feed("\n"));
    assert!(!has_line_feed("a\rb"));
    assert!(!has_line_feed(""));
}

#[test]
fn parse_agrees_with_the_standard_library() {
    let samples = [
        "0",
        "7",
        "-7",
        "+7",
        "007",
        "127",
        "255",
        "2147483647",
        "2147483648",
        "-2147483648",
        "-2147483649",
        "99999999999999999999999",
        "",
        "-",
        "+",
        "--1",
        "+-1",
        "1 ",
        " 1",
        "1a",
        "a1",
        "１",
        "echo $?",
        "-0",
    ];
    for sample in samples {
        assert_eq!(parse_i32(sample), sample.parse::<i32>().ok(), "{:?}", sample);
    }
}

#[test]
fn parse_exact_values() {
    assert_eq!(parse_i32("0"), Some(0));
    assert_eq!(parse_i32("130"), Some(130));
    assert_eq!(parse_i32("-2147483648"), Some(i32::MIN));
    assert_eq!(parse_i32("2147483647"), Some(i32::MAX));
    assert_eq!(parse_i32("2147483648"), None);
    assert_eq!(parse_i32("12x"), None);
}

#[test]
fn decimal_agrees_with_the_standard_library() {
    for n in [0, 1, 9, 10, 11, 99, 100, 130, 255, -1, -10, -255, i32::MAX, i32::MIN] {
        let mut out = String::from("n=");
        push_decimal(&mut out, n);
        assert_eq!(out, format!("n={}", n));
    }
}

#[test]
fn decimal_parses_back() {
    for n in [0, 5, -5, 1234567, i32::MAX, i32::MIN] {
        let mut out = String::new();
        push_decimal(&mut out, n);
        assert_eq!(parse_i32(&out), Some(n));
    }
}
