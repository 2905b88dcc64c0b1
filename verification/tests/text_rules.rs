use myknowledge::text::{
    char_is_whitespace, contains, contains_case_insensitive, hyphenate, same_text, trim,
    trim_start,
};

#[test]
fn trim_removes_surrounding_whitespace() {
    assert_eq!(trim("  hello world \n\t"), "hello world");
    assert_eq!(trim(""), "");
    assert_eq!(trim(" \t\n "), "");
    assert_eq!(trim("\u{3000}wide\u{00A0}"), "wide");
}

#[test]
fn trim_agrees_with_std() {
    let samples = [
        "", "a", "  a  ", "\u{2028}x\u{2029}", "\u{85}y\u{1680}", "\u{180E}z", "\u{200B}w",
        "\u{202F}v\u{205F}", "\r\n\u{0B}\u{0C}u",
    ];
    for s in samples {
        assert_eq!(trim(s), s.trim(), "trim of {:?}", s);
        assert_eq!(trim_start(s), s.trim_start(), "trim_start of {:?}", s);
    }
}

#[test]
fn whitespace_matches_std_for_all_chars() {
    for v in 0u32..=0x10FFFF {
        if let Some(c) = char::from_u32(v) {
            assert_eq!(char_is_whitespace(c), c.is_whitespace(), "char {:?}", c);
        }
    }
}

#[test]
fn trim_start_keeps_trailing_whitespace() {
    assert_eq!(trim_start("\n  body text  "), "body text  ");
}

#[test]
fn hyphenate_replaces_every_space() {
    assert_eq!(hyphenate("rust lang  tips"), "rust-lang--tips");
    assert_eq!(hyphenate("none"), "none");
}

#[test]
fn contains_finds_substrings() {
    assert!(contains("knowledge base", "ledge"));
    assert!(contains("abc", ""));
    assert!(contains("", ""));
    assert!(!contains("abc", "abcd"));
    assert!(!contains("abc", "cb"));
    assert!(contains("aaab", "aab"));
}

#[test]
fn contains_case_insensitive_lowers_both_sides() {
    assert!(contains_case_insensitive("Rust Notes", "rUST"));
    assert!(!contains_case_insensitive("Rust Notes", "python"));
}

#[test]
fn same_text_compares_characters() {
    assert!(same_text("abc", "abc"));
    assert!(!same_text("abc", "abC"));
}
