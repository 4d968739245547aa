use vtt_clips::text::chars::{
    char_digit_value, char_is_digit, char_is_reserved, char_is_whitespace, char_of_digit,
};
use vtt_clips::text::numbers::{push_decimal, push_signed_decimal, push_two_digits, read_u32};
use vtt_clips::text::strings::{
    chars_of, find_char, matches_at, push_str, same_text, split_bounds, string_from, string_of,
    text_contains, trim_bounds,
};

fn chars(s: &str) -> Vec<char> {
    s.chars().collect()
}

fn samples() -> Vec<&'static str> {
    vec![
        "",
        " ",
        "a",
        "  a  ",
        "\t\r\n x y \u{3000}",
        "\u{a0}nbsp\u{85}",
        "\u{200b}zero width is no whitespace\u{200b}",
        "\u{2028}line\u{2029}",
        "a:b:c",
        "::",
        ":a:",
        "00:01:14.500",
        "no separator",
        "ends with\n",
        "\n\nstarts with",
        "é:ü:ß",
        "+12",
        "0012",
        "4294967295",
        "4294967296",
        "+",
        "-1",
        "1 2",
        "١٢٣",
    ]
}

#[test]
fn knows_whitespace_as_the_standard_library_does() {
    for code in 0..=0x10FFFFu32 {
        if let Some(c) = char::from_u32(code) {
            assert_eq!(char_is_whitespace(c), c.is_whitespace(), "U+{:04X}", code);
        }
    }
}

#[test]
fn knows_the_ten_digits() {
    for code in 0..=0x10FFFFu32 {
        if let Some(c) = char::from_u32(code) {
            assert_eq!(char_is_digit(c), c.is_ascii_digit(), "U+{:04X}", code);
        }
    }
    for d in 0..10u8 {
        let c = char_of_digit(d);
        assert_eq!(c, (b'0' + d) as char);
        assert_eq!(char_digit_value(c), d);
    }
}

#[test]
fn knows_the_reserved_characters() {
    for code in 0..=0x10FFFFu32 {
        if let Some(c) = char::from_u32(code) {
            assert_eq!(char_is_reserved(c), "/\\:*?\"<>|".contains(c), "U+{:04X}", code);
        }
    }
}

#[test]
fn moves_between_strings_and_characters() {
    for s in samples() {
        let v = chars_of(s);
        assert_eq!(v, chars(s));
        assert_eq!(string_from(&v), s);
        assert_eq!(string_of(&v, 0, v.len()), s);
        let mut out = chars("head");
        push_str(&mut out, s);
        assert_eq!(string_from(&out), format!("head{}", s));
    }
    let v = chars("hello world");
    assert_eq!(string_of(&v, 6, 11), "world");
    assert_eq!(string_of(&v, 3, 3), "");
}

#[test]
fn finds_the_first_occurrence() {
    let v = chars("a.b.c");
    assert_eq!(find_char(&v, 0, 5, '.'), 1);
    assert_eq!(find_char(&v, 2, 5, '.'), 3);
    assert_eq!(find_char(&v, 4, 5, '.'), 5);
    assert_eq!(find_char(&v, 0, 1, '.'), 1);
    assert_eq!(find_char(&v, 0, 0, '.'), 0);
    assert_eq!(find_char(&v, 0, 5, 'x'), 5);
}

#[test]
fn splits_as_the_standard_library_does() {
    for s in samples() {
        for sep in [':', '\n', '.', ' '] {
            let v = chars(s);
            let pieces: Vec<String> =
                split_bounds(&v, sep).into_iter().map(|(a, b)| string_of(&v, a, b)).collect();
            let expected: Vec<String> = s.split(sep).map(|p| p.to_string()).collect();
            assert_eq!(pieces, expected, "{:?} at {:?}", s, sep);
        }
    }
}

#[test]
fn trims_as_the_standard_library_does() {
    for s in samples() {
        let v = chars(s);
        let (a, b) = trim_bounds(&v, 0, v.len());
        assert_eq!(string_of(&v, a, b), s.trim(), "{:?}", s);
    }
    let v = chars("ab  cd  ef");
    let (a, b) = trim_bounds(&v, 2, 8);
    assert_eq!((a, b), (4, 6));
    let (a, b) = trim_bounds(&v, 2, 4);
    assert_eq!(a, b);
}

#[test]
fn reads_numbers_as_the_standard_library_does() {
    for s in samples() {
        let v = chars(s);
        assert_eq!(read_u32(&v, 0, v.len()), s.parse::<u32>().ok(), "{:?}", s);
    }
    for n in [0u32, 1, 9, 10, 99, 100, 65535, 4294967294, u32::MAX] {
        let v = chars(&n.to_string());
        assert_eq!(read_u32(&v, 0, v.len()), Some(n));
    }
    let v = chars("ab123cd");
    assert_eq!(read_u32(&v, 2, 5), Some(123));
    assert_eq!(read_u32(&v, 2, 6), None);
    assert_eq!(read_u32(&v, 3, 3), None);
}

#[test]
fn writes_numbers_as_the_standard_library_does() {
    for n in [0u64, 1, 9, 10, 11, 99, 100, 101, 65535, 4294967295, u64::MAX] {
        let mut out = Vec::new();
        push_decimal(&mut out, n);
        assert_eq!(string_from(&out), n.to_string());
        let mut out = chars("x");
        push_two_digits(&mut out, n);
        assert_eq!(string_from(&out), format!("x{:02}", n));
    }
    for n in [0i32, 1, -1, 9, -9, 10, -10, 255, -255, i32::MAX, i32::MIN] {
        let mut out = Vec::new();
        push_signed_decimal(&mut out, n);
        assert_eq!(string_from(&out), n.to_string());
    }
}

#[test]
fn searches_text_as_the_standard_library_does() {
    let needles = ["", "a", ":", "::", "b:c", "00:01", "\"error\": {", "zz", "ends with\n"];
    for s in samples() {
        for needle in needles {
            assert_eq!(text_contains(s, needle), s.contains(needle), "{:?} in {:?}", needle, s);
            assert_eq!(same_text(s, needle), s == needle);
        }
        assert!(same_text(s, s));
        assert!(text_contains(s, s));
    }
    let v = chars("abcabc");
    let n = chars("bc");
    assert!(matches_at(&v, &n, 1));
    assert!(matches_at(&v, &n, 4));
    assert!(!matches_at(&v, &n, 0));
    assert!(!matches_at(&v, &n, 3));
}
