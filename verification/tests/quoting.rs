use motovlog::quoting::{escape_concat_literal, escape_filter_literal};
use motovlog::text::contains_text;

/// Reads a token by ffmpeg's quoting rules.
fn read_token(token: &str) -> Option<String> {
    let mut out = String::new();
    let mut quoted = false;
    let mut chars = token.chars();
    while let Some(c) = chars.next() {
        if c == '\'' {
            quoted = !quoted;
        } else if c == '\\' && !quoted {
            out.push(chars.next()?);
        } else {
            out.push(c);
        }
    }
    if quoted {
        None
    } else {
        Some(out)
    }
}

#[test]
fn filter_quotes_are_closed_and_reopened() {
    assert_eq!(escape_filter_literal("it's"), r"it'\''s");
    assert_eq!(escape_filter_literal(r"a\b"), r"a\b");
    assert_eq!(escape_filter_literal("''"), r"'\'''\''");
    assert_eq!(escape_filter_literal(""), "");
}

#[test]
fn filter_literals_read_back() {
    for value in ["", "plain", "it's", r"back\slash", "''", r"\'", "é'ü", "luts/a b.cube"] {
        let quoted = format!("'{}'", escape_filter_literal(value));
        assert_eq!(read_token(&quoted), Some(value.to_string()));
    }
}

#[test]
fn concat_quotes_are_closed_and_reopened() {
    assert_eq!(escape_concat_literal("it's"), r"it'\''s");
    assert_eq!(escape_concat_literal(r"a\b"), r"a\b");
    assert_eq!(escape_concat_literal(r"\'"), r"\'\''");
    assert_eq!(escape_concat_literal("plain é"), "plain é");
}

#[test]
fn concat_literals_read_back() {
    for value in ["", "plain", "/clips/DJI_1.mp4", "é ü", "it's", r"back\slash", r"\\", "''", "a\nb"] {
        let quoted = format!("'{}'", escape_concat_literal(value));
        assert_eq!(read_token(&quoted), Some(value.to_string()));
    }
}

#[test]
fn texts_are_searched() {
    assert!(contains_text("abc", ""));
    assert!(contains_text("", ""));
    assert!(!contains_text("", "a"));
    assert!(contains_text("aab", "ab"));
    assert!(contains_text("xéy", "éy"));
    assert!(!contains_text("ab", "abc"));
}
