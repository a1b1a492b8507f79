use tpt_focus::number::{decimal, read_i32, read_u32, read_unsigned, signed_decimal};
use tpt_focus::text::{
    chars_of, is_blank, is_white, join, pad_left, pad_right, same_ignoring_ascii_case, same_text,
    split_first, split_words, text_of, text_precedes, text_range, to_ascii_lower, trim,
    truncate,
};

#[test]
fn trimming_agrees_with_the_standard_library() {
    for s in [
        "", " ", "a", " a ", "\t\n a b \r", "\u{a0}x\u{2003}", "\u{200b}x", "ä ", "\u{3000}",
        "\u{85}q", "\u{1680}q\u{205f}", "x\u{feff}", "\u{180e}x",
    ] {
        assert_eq!(trim(s), s.trim(), "{s:?}");
        assert_eq!(is_blank(s), s.trim().is_empty(), "{s:?}");
    }
}

#[test]
fn white_space_is_that_of_unicode() {
    let mut code: u32 = 0;
    while code <= 0x10ffff {
        if let Some(c) = char::from_u32(code) {
            assert_eq!(is_white(c), c.is_whitespace(), "{code:x}");
        }
        code += 1;
    }
}

#[test]
fn words_are_split_like_the_standard_library() {
    for s in ["", "  ", "a", " a  b ", "\u{2003}x\u{a0}y\nz"] {
        let expected: Vec<&str> = s.split_whitespace().collect();
        assert_eq!(split_words(s), expected, "{s:?}");
    }
}

#[test]
fn truncating_marks_the_cut() {
    assert_eq!(truncate("hello", 5), "hello");
    assert_eq!(truncate("hello!", 5), "hell…");
    assert_eq!(truncate("hello", 1), "…");
    assert_eq!(truncate("hello", 0), "…");
    assert_eq!(truncate("", 0), "");
    assert_eq!(truncate("äöüß", 3), "äö…");
}

#[test]
fn padding_counts_characters() {
    for (s, width) in [("ab", 4), ("äöü", 5), ("long", 2), ("", 1)] {
        assert_eq!(pad_right(s, width), format!("{s:<width$}"));
        assert_eq!(pad_left(s, width), format!("{s:>width$}"));
    }
}

#[test]
fn texts_are_taken_apart_and_put_together() {
    let chars = chars_of("a:b:c");
    assert_eq!(text_of(&chars), "a:b:c");
    assert_eq!(text_range(&chars, 2, 5), "b:c");
    assert_eq!(split_first("a:b:c", ':'), ("a".into(), Some("b:c".into())));
    assert_eq!(split_first("abc", ':'), ("abc".into(), None));
    assert_eq!(split_first(":", ':'), (String::new(), Some(String::new())));
    assert_eq!(join(&vec!["a".into(), "b".into()], ", "), "a, b");
    assert_eq!(join(&Vec::new(), ", "), "");
    assert!(same_text("a", "a") && !same_text("a", "A"));
    assert!(same_ignoring_ascii_case("Deep", "dEEP"));
    assert!(!same_ignoring_ascii_case("Ä", "ä"));
    assert_eq!(to_ascii_lower("ÄBC"), "Äbc");
}

#[test]
fn numbers_are_written_in_decimal() {
    for n in [0u64, 7, 10, 99, 100, 1_234_567_890, u64::MAX] {
        assert_eq!(decimal(n), n.to_string());
    }
    for n in [0i64, -1, 42, i64::MAX, i64::MIN] {
        assert_eq!(signed_decimal(n), n.to_string());
    }
}

#[test]
fn numbers_are_read_like_the_standard_library() {
    for s in [
        "", "+", "-", "0", "00", "+7", "-7", "7 ", " 7", "4294967295", "4294967296", "1x", "x1",
        "99999999999999999999", "2147483647", "2147483648", "-2147483648", "-2147483649", "--1",
        "٣", "+-1", "-0",
    ] {
        assert_eq!(read_i32(s), s.parse::<i32>().ok(), "{s:?}");
        assert_eq!(read_unsigned(s, u32::MAX), s.parse::<u32>().ok(), "{s:?}");
        match s.parse::<u32>() {
            Ok(n) => assert_eq!(read_u32(s).unwrap(), n),
            Err(error) => assert_eq!(read_u32(s).unwrap_err(), error.to_string(), "{s:?}"),
        }
    }
}

#[test]
fn texts_are_ordered_as_their_bytes_are() {
    let texts = ["", "a", "A", "ab", "b", "aa", "é", "z", "\u{ffff}", "\u{10000}", "a\u{0}"];
    for a in texts {
        for b in texts {
            assert_eq!(text_precedes(a, b), a.as_bytes() < b.as_bytes(), "{a:?} {b:?}");
        }
    }
}
