use muxux_core::text::{
    chars_of, copy_range, find_char, has_prefix, is_space_char, lines, parse_i32, parse_u32,
    parse_u64, push_decimal, same_chars, split, string_of, trim, words,
};

fn chars(s: &str) -> Vec<char> {
    s.chars().collect()
}

fn texts(items: Vec<Vec<char>>) -> Vec<String> {
    items.iter().map(|item| item.iter().collect()).collect()
}

fn samples() -> Vec<&'static str> {
    vec![
        "",
        " ",
        "a",
        "  a b  ",
        "\t\r\n x \u{b}\u{c}",
        "\u{85}\u{a0}mid\u{1680}dle\u{2000}\u{200a}\u{2028}\u{2029}\u{202f}\u{205f}\u{3000}",
        "\u{200b}zero width is no space\u{200b}",
        "one\ntwo\r\nthree\r",
        "\n",
        "\n\n",
        "a\n",
        "a\r\r\nb\n\rc",
        "a:b::c:",
        ":",
        "%0:0:120:40:0:0",
        "ü é\u{3000}漢字 ",
    ]
}

#[test]
fn conversions_keep_every_character() {
    for s in samples() {
        assert_eq!(chars_of(s), chars(s));
        assert_eq!(string_of(&chars(s)), s);
    }
}

#[test]
fn white_space_is_what_the_standard_library_calls_white_space() {
    for code in 0..0x3100u32 {
        if let Some(c) = char::from_u32(code) {
            assert_eq!(is_space_char(c), c.is_whitespace(), "U+{:04X}", code);
        }
    }
    assert!(!is_space_char('\u{feff}'));
    assert!(!is_space_char('\u{10ffff}'));
}

#[test]
fn trim_agrees_with_the_standard_library() {
    for s in samples() {
        assert_eq!(string_of(&trim(&chars(s))), s.trim());
    }
}

#[test]
fn lines_agree_with_the_standard_library() {
    for s in samples() {
        let expected: Vec<String> = s.lines().map(|l| l.to_string()).collect();
        assert_eq!(texts(lines(&chars(s))), expected, "{:?}", s);
    }
}

#[test]
fn split_agrees_with_the_standard_library() {
    for s in samples() {
        for mark in [':', '.', '\n', 'a'] {
            let expected: Vec<String> = s.split(mark).map(|l| l.to_string()).collect();
            assert_eq!(texts(split(&chars(s), mark)), expected, "{:?} at {:?}", s, mark);
        }
    }
}

#[test]
fn words_agree_with_the_standard_library() {
    for s in samples() {
        let expected: Vec<String> = s.split_whitespace().map(|l| l.to_string()).collect();
        assert_eq!(texts(words(&chars(s))), expected, "{:?}", s);
    }
}

#[test]
fn numbers_agree_with_the_standard_library() {
    let numbers = vec![
        "", "0", "7", "007", "+7", "+", "-", "-7", "-0", "+-7", "++7", " 7", "7 ", "7a", "a7",
        "1_000", "٣", "4294967295", "4294967296", "2147483647", "2147483648", "-2147483648",
        "-2147483649", "18446744073709551615", "18446744073709551616",
        "99999999999999999999999999999999999999999", "0000000000000000000000000000000000001",
    ];
    for s in numbers {
        assert_eq!(parse_u32(&chars(s)), s.parse::<u32>().ok(), "{:?}", s);
        assert_eq!(parse_u64(&chars(s)), s.parse::<u64>().ok(), "{:?}", s);
        assert_eq!(parse_i32(&chars(s)), s.parse::<i32>().ok(), "{:?}", s);
    }
}

#[test]
fn decimal_notation() {
    for n in [0u64, 1, 9, 10, 11, 99, 100, 101, 4294967295, 4294967296, u64::MAX] {
        let mut out = chars("n=");
        push_decimal(&mut out, n);
        assert_eq!(string_of(&out), format!("n={}", n));
    }
}

#[test]
fn ranges_prefixes_and_marks() {
    let s = chars("hello: world");
    assert_eq!(string_of(&copy_range(&s, 0, 5)), "hello");
    assert_eq!(string_of(&copy_range(&s, 7, 12)), "world");
    assert!(copy_range(&s, 3, 3).is_empty());
    assert!(has_prefix(&s, &chars("hello")));
    assert!(has_prefix(&s, &chars("")));
    assert!(!has_prefix(&s, &chars("help")));
    assert!(!has_prefix(&chars("he"), &chars("hello")));
    assert!(same_chars(&s, &chars("hello: world")));
    assert!(!same_chars(&s, &chars("hello: worlD")));
    assert!(!same_chars(&s, &chars("hello")));
    assert_eq!(find_char(&s, 0, ':'), 5);
    assert_eq!(find_char(&s, 6, ':'), 12);
    assert_eq!(find_char(&s, 12, 'h'), 12);
}
