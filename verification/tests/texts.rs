use dsh_desktop::number::{integer, natural, parse_i64, parse_u32};
use dsh_desktop::text::{
    begins_with, chars_of, contains, is_white, last_word_bounds, line_bounds, lower_chars,
    same_text, trim,
};

fn lines(text: &str) -> Vec<String> {
    let chars = chars_of(text);
    line_bounds(&chars)
        .into_iter()
        .map(|(from, to)| chars[from..to].iter().collect())
        .collect()
}

fn last_word(text: &str) -> String {
    let chars = chars_of(text);
    let (from, to) = last_word_bounds(&chars);
    chars[from..to].iter().collect()
}

fn u32_of(text: &str) -> Option<u32> {
    parse_u32(&chars_of(text))
}

fn i64_of(text: &str) -> Option<i64> {
    parse_i64(&chars_of(text))
}

#[test]
fn white_space_is_that_of_unicode() {
    for c in '\0'..=char::MAX {
        assert_eq!(is_white(c), c.is_whitespace(), "{c:?}");
    }
}

#[test]
fn trimming_takes_white_space_from_both_ends() {
    for text in ["", " ", "a", " a ", "\t\r\na b\u{3000}\u{a0}", "\u{feff}x ", "  \u{85}"] {
        assert_eq!(trim(text), text.trim());
    }
}

#[test]
fn lines_end_with_line_feeds() {
    for text in [
        "", "\n", "a", "a\n", "a\nb", "a\r\nb\r\n", "a\rb", "\n\nx\n\n", "\r\n", "a\r", "a\n\r",
        "x\r\r\ny",
    ] {
        let expected: Vec<&str> = text.lines().collect();
        assert_eq!(lines(text), expected, "{text:?}");
    }
}

#[test]
fn last_words() {
    for text in ["", "  ", "a", "a b", "a b ", "\ta\u{3000}b\n", " x"] {
        let expected = text.split_whitespace().last().unwrap_or("");
        assert_eq!(last_word(text), expected, "{text:?}");
    }
}

#[test]
fn searching_text() {
    assert!(contains("abc", ""));
    assert!(contains("aab", "ab"));
    assert!(!contains("aba", "bb"));
    assert!(contains("日志超过", "超过"));
    assert!(begins_with(&chars_of("abc"), &chars_of("ab")));
    assert!(!begins_with(&chars_of("ab"), &chars_of("abc")));
    assert!(same_text("设置…", "设置…"));
    assert!(!same_text("a", "ab"));
}

#[test]
fn small_letters_are_ascii_only() {
    let text = "NPM_Config_ÄZ@[`{";
    let small: String = lower_chars(text).into_iter().collect();
    assert_eq!(small, text.to_ascii_lowercase());
}

#[test]
fn numbers_are_written_in_decimal() {
    for n in [0, 7, 10, 3080, 1234567890, u64::MAX] {
        assert_eq!(natural(n), n.to_string());
    }
    for i in [0, -1, 60, i64::MIN, i64::MAX] {
        assert_eq!(integer(i), i.to_string());
    }
}

#[test]
fn numbers_are_read_as_rust_reads_them() {
    for text in [
        "", "+", "-", "0", "00012", "+5", "-5", "-0", "++1", "1 ", " 1", "1_0", "٣", "4294967295",
        "4294967296", "99999999999999999999999", "9223372036854775807", "9223372036854775808",
        "-9223372036854775808", "-9223372036854775809", "0x10", "12a",
    ] {
        assert_eq!(u32_of(text), text.parse::<u32>().ok(), "{text:?}");
        assert_eq!(i64_of(text), text.parse::<i64>().ok(), "{text:?}");
    }
}

#[test]
fn written_integers_are_read_back() {
    for i in [0, 1, -1, 42, -4200, i64::MIN, i64::MAX] {
        assert_eq!(i64_of(&integer(i)), Some(i));
    }
}
