use mkcontent::text::{
    bytes_eq, chars_of, contains, decimal, is_white_space, occurs_at, str_eq, trim, trim_range,
};

#[test]
fn equality_of_strings_and_bytes() {
    assert!(str_eq("", ""));
    assert!(str_eq("héllo", "héllo"));
    assert!(!str_eq("hello", "hellp"));
    assert!(!str_eq("hello", "hell"));
    assert!(bytes_eq(b"abc", b"abc"));
    assert!(!bytes_eq(b"abc", b"abd"));
    assert!(!bytes_eq(b"", b"a"));
}

#[test]
fn characters_of_a_string() {
    assert_eq!(chars_of(""), Vec::<char>::new());
    assert_eq!(chars_of("a©z"), vec!['a', '©', 'z']);
}

#[test]
fn decimal_text() {
    assert_eq!(decimal(0), "0");
    assert_eq!(decimal(7), "7");
    assert_eq!(decimal(10), "10");
    assert_eq!(decimal(2024), "2024");
    assert_eq!(decimal(-1), "-1");
    assert_eq!(decimal(-9070), "-9070");
    assert_eq!(decimal(i64::MAX), "9223372036854775807");
    assert_eq!(decimal(i64::MIN), "-9223372036854775808");
}

#[test]
fn substring_search() {
    assert!(contains(b"language-math math-inline", b"language-math"));
    assert!(contains(b"x language-math", b"language-math"));
    assert!(contains(b"abc", b""));
    assert!(contains(b"", b""));
    assert!(!contains(b"", b"a"));
    assert!(!contains(b"language-mat", b"language-math"));
    assert!(contains(b"aab", b"ab"));
    assert!(occurs_at(b"aab", b"ab", 1));
    assert!(!occurs_at(b"aab", b"ab", 0));
    assert!(!occurs_at(b"aab", b"ab", 2));
    assert!(!occurs_at(b"aab", b"ab", 9));
    assert!(occurs_at(b"aab", b"", 3));
}

#[test]
fn white_space_is_what_the_standard_library_calls_white_space() {
    let mut code = 0u32;
    while code <= 0x3100 {
        if let Some(c) = char::from_u32(code) {
            assert_eq!(is_white_space(c), c.is_whitespace(), "U+{:04X}", code);
        }
        code += 1;
    }
    assert!(!is_white_space('\u{feff}'));
    assert!(!is_white_space('\u{10ffff}'));
}

#[test]
fn trimming() {
    assert_eq!(trim(""), "");
    assert_eq!(trim("   "), "");
    assert_eq!(trim("a"), "a");
    assert_eq!(trim("  a b \t\n"), "a b");
    assert_eq!(trim("\u{3000}rust\u{a0}"), "rust");
    for sample in ["", " ", "x", " x", "x ", " x y ", "\r\n---\r\n", "\u{2003}é \u{85}"] {
        assert_eq!(trim(sample), sample.trim());
    }
}

#[test]
fn trimming_a_part_of_a_text() {
    let text: Vec<char> = "ab  cd  ef".chars().collect();
    assert_eq!(trim_range(&text, 2, 8), (4, 6));
    assert_eq!(trim_range(&text, 2, 4), (4, 4));
    assert_eq!(trim_range(&text, 0, 10), (0, 10));
    assert_eq!(trim_range(&text, 3, 3), (3, 3));
}
