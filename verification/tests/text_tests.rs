use auto_discovery::text::{
    decimal_string, parse_usize, replace_chars, same_text, starts_with, strip_prefix, trim_str,
    NumberError,
};

#[test]
fn trim_removes_unicode_whitespace_at_both_ends() {
    assert_eq!(trim_str("  hello world \n"), "hello world");
    assert_eq!(trim_str("\u{3000}\tx\u{a0}"), "x");
    assert_eq!(trim_str(" \n\t "), "");
    assert_eq!(trim_str(""), "");
    assert_eq!(trim_str("a b"), "a b");
}

#[test]
fn decimal_renders_without_padding() {
    assert_eq!(decimal_string(0), "0");
    assert_eq!(decimal_string(7), "7");
    assert_eq!(decimal_string(10), "10");
    assert_eq!(decimal_string(65535), "65535");
    assert_eq!(decimal_string(u64::MAX), "18446744073709551615");
}

#[test]
fn parse_usize_matches_std() {
    let cases = ["0", "42", "+7", "", "+", "-", "-5", "12a", " 1", "007", "18446744073709551615",
        "18446744073709551616", "99999999999999999999x", "1x99999999999999999999"];
    for c in cases.iter() {
        let ours = parse_usize(c);
        let theirs = c.parse::<usize>();
        match (ours, theirs) {
            (Ok(a), Ok(b)) => assert_eq!(a, b, "case {:?}", c),
            (Err(e), Err(f)) => {
                let kind = match f.kind() {
                    std::num::IntErrorKind::Empty => NumberError::Empty,
                    std::num::IntErrorKind::InvalidDigit => NumberError::InvalidDigit,
                    std::num::IntErrorKind::PosOverflow => NumberError::Overflow,
                    _ => panic!("unexpected kind"),
                };
                assert_eq!(e, kind, "case {:?}", c);
            }
            (a, b) => panic!("case {:?}: {:?} vs {:?}", c, a, b),
        }
    }
}

#[test]
fn parse_usize_error_kinds() {
    assert_eq!(parse_usize(""), Err(NumberError::Empty));
    assert_eq!(parse_usize("+"), Err(NumberError::InvalidDigit));
    assert_eq!(parse_usize("-3"), Err(NumberError::InvalidDigit));
    assert_eq!(parse_usize("99999999999999999999"), Err(NumberError::Overflow));
    assert_eq!(parse_usize("+12"), Ok(12));
}

#[test]
fn prefixes_and_replacement() {
    assert!(starts_with("forsyth-tui._forsyth", "forsyth-tui"));
    assert!(!starts_with("forsyth", "forsyth-tui"));
    assert!(starts_with("abc", ""));
    assert_eq!(strip_prefix("TASKS 3", "TASKS "), Some("3".to_string()));
    assert_eq!(strip_prefix("TASK 3", "TASKS "), None);
    assert_eq!(replace_chars("a b  c", ' ', '-'), "a-b--c");
    assert!(same_text("OK", "OK"));
    assert!(!same_text("OK", "ok"));
}

#[test]
fn whitespace_set_matches_std() {
    for code in 0u32..0x3100 {
        if let Some(c) = char::from_u32(code) {
            assert_eq!(auto_discovery::text::is_space_char(c), c.is_whitespace(), "U+{:04X}", code);
            let s = format!("{}x{}", c, c);
            assert_eq!(trim_str(&s), s.trim(), "U+{:04X}", code);
        }
    }
}

#[test]
fn decimal_parses_back() {
    for n in [0u64, 1, 9, 10, 99, 100, 65535, 4294967295, u64::MAX] {
        assert_eq!(parse_usize(&decimal_string(n)), Ok(n as usize));
    }
}
