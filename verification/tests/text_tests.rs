use lab_logger::text::{
    copy_range, ends_with, int_text, nat_text, pad_end, pad_start, same_text, split_on,
    starts_with, text_before_char, trim, white_space,
};

#[test]
fn trim_removes_unicode_white_space_at_both_ends() {
    assert_eq!(trim("  \t hello world \n"), "hello world");
    assert_eq!(trim("\u{3000}\u{a0}abc\u{2028}"), "abc");
    assert_eq!(trim("   "), "");
    assert_eq!(trim(""), "");
    assert_eq!(trim("x"), "x");
}

#[test]
fn trim_matches_std() {
    for s in ["  a b  ", "\u{85}z\u{85}", "\r\nline\r\n", "none", "\u{200b}keep\u{200b}"] {
        assert_eq!(trim(s), s.trim());
    }
}

#[test]
fn white_space_follows_the_unicode_property() {
    for c in ['\t', '\n', '\u{b}', '\u{c}', '\r', ' ', '\u{85}', '\u{a0}', '\u{1680}', '\u{2000}', '\u{200a}', '\u{2028}', '\u{2029}', '\u{202f}', '\u{205f}', '\u{3000}'] {
        assert!(white_space(c));
        assert!(c.is_whitespace());
    }
    for c in ['a', '\u{200b}', '\u{180e}', '0', '_'] {
        assert!(!white_space(c));
        assert_eq!(white_space(c), c.is_whitespace());
    }
}

#[test]
fn split_on_keeps_empty_pieces() {
    assert_eq!(split_on("a,b,,c", ','), vec!["a", "b", "", "c"]);
    assert_eq!(split_on("", ','), vec![""]);
    assert_eq!(split_on(",", ','), vec!["", ""]);
    assert_eq!(split_on("no-sep", ','), vec!["no-sep"]);
    let s = "db/03-2024/s_1";
    assert_eq!(split_on(s, '/'), s.split('/').collect::<Vec<_>>());
}

#[test]
fn text_before_char_stops_at_first_occurrence() {
    assert_eq!(text_before_char("2024.db", '.'), "2024");
    assert_eq!(text_before_char("a?b?c", '?'), "a");
    assert_eq!(text_before_char("plain", '?'), "plain");
}

#[test]
fn numerals() {
    assert_eq!(nat_text(0), "0");
    assert_eq!(nat_text(7), "7");
    assert_eq!(nat_text(1723563266738), "1723563266738");
    assert_eq!(nat_text(u64::MAX), u64::MAX.to_string());
    assert_eq!(int_text(-5), "-5");
    assert_eq!(int_text(i64::MIN), i64::MIN.to_string());
    assert_eq!(int_text(2024), "2024");
}

#[test]
fn padding() {
    assert_eq!(pad_start("3", 2, '0'), "03");
    assert_eq!(pad_start("12", 2, '0'), "12");
    assert_eq!(pad_start("123", 2, '0'), "123");
    assert_eq!(pad_end("ab", 5, ' '), "ab   ");
    assert_eq!(pad_end("abcdef", 5, ' '), "abcdef");
    assert_eq!(pad_end("é", 3, '.'), "é..");
}

#[test]
fn prefixes_and_suffixes() {
    assert!(starts_with("GET /db/x", "GET /db/"));
    assert!(!starts_with("GET /d", "GET /db/"));
    assert!(ends_with("03-2024.db", ".db"));
    assert!(!ends_with("notes.txt", ".db"));
    assert!(!ends_with("db", ".db"));
    assert!(same_text("abc", "abc"));
    assert!(!same_text("abc", "abd"));
    assert!(!same_text("abc", "ab"));
    assert_eq!(copy_range("héllo", 1, 4), "éll");
}
