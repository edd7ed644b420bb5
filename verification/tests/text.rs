use smrec::text::{blank, chars_of, digit, digit_str, push_decimal, same_text, whitespace};

#[test]
fn white_space_is_what_the_standard_library_takes_for_it() {
    for code in 0..=0x10FFFFu32 {
        if let Some(c) = char::from_u32(code) {
            assert_eq!(whitespace(c), c.is_whitespace(), "U+{:04X}", code);
        }
    }
}

#[test]
fn blanks_and_digits() {
    for code in 0..=0x10FFFFu32 {
        if let Some(c) = char::from_u32(code) {
            assert_eq!(blank(c), c == ' ' || c == '\t' || c == '\r' || c == '\n');
            assert_eq!(digit(c), c.is_ascii_digit());
        }
    }
}

#[test]
fn characters_of_a_string() {
    assert_eq!(chars_of(""), Vec::<char>::new());
    assert_eq!(chars_of("a\u{e9}\u{1f3b5}z"), vec!['a', '\u{e9}', '\u{1f3b5}', 'z']);
}

#[test]
fn strings_are_compared_by_their_characters() {
    assert!(same_text("", ""));
    assert!(same_text("/smrec/start", "/smrec/start"));
    assert!(same_text("gr\u{fc}n", "gr\u{fc}n"));
    assert!(!same_text("a", "b"));
    assert!(!same_text("a", "ab"));
    assert!(!same_text("ab", "a"));
    assert!(!same_text("gr\u{fc}n", "grun"));
    assert!(!same_text("", " "));
}

#[test]
fn numbers_are_written_in_decimal() {
    for n in [0u64, 1, 9, 10, 11, 99, 100, 255, 256, 1000, 65535, u32::MAX as u64, u64::MAX] {
        let mut out = String::from("x");
        push_decimal(&mut out, n);
        assert_eq!(out, format!("x{}", n));
    }
    for d in 0..10u64 {
        assert_eq!(digit_str(d), d.to_string());
    }
}
