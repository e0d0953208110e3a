use ollama_studio::text::{combine, decimal_string, is_blank, is_whitespace, trim};

#[test]
fn trim_removes_surrounding_whitespace() {
    assert_eq!(trim("  hello world \n"), "hello world");
    assert_eq!(trim("\t\u{3000}x\u{a0}"), "x");
    assert_eq!(trim("inner  space"), "inner  space");
}

#[test]
fn trim_of_blank_is_empty() {
    assert_eq!(trim(""), "");
    assert_eq!(trim(" \n\t\r "), "");
}

#[test]
fn trim_agrees_with_std_on_samples() {
    for s in ["", " a ", "\u{2028}b\u{2029}", "\u{85}c\u{85}", " \u{1680}d e\u{200a}", "\u{200b}z"] {
        assert_eq!(trim(s), s.trim());
    }
}

#[test]
fn trim_is_idempotent() {
    let once = trim("  \tkeep me  ");
    assert_eq!(trim(&once), once);
}

#[test]
fn blank_texts() {
    assert!(is_blank(""));
    assert!(is_blank("   \n"));
    assert!(!is_blank(" x "));
    // U+200B (zero width space) is not whitespace.
    assert!(!is_blank("\u{200b}"));
}

#[test]
fn whitespace_set_matches_std() {
    for c in ['\t', '\n', '\u{b}', '\u{c}', '\r', ' ', '\u{85}', '\u{a0}', '\u{1680}', '\u{2000}', '\u{200a}', '\u{2028}', '\u{2029}', '\u{202f}', '\u{205f}', '\u{3000}', 'a', '\u{200b}', '\u{180e}', '0'] {
        assert_eq!(is_whitespace(c), c.is_whitespace(), "{:?}", c);
    }
}

#[test]
fn decimal_rendering() {
    assert_eq!(decimal_string(0), "0");
    assert_eq!(decimal_string(7), "7");
    assert_eq!(decimal_string(10), "10");
    assert_eq!(decimal_string(1203), "1203");
    assert_eq!(decimal_string(usize::MAX), usize::MAX.to_string());
}

#[test]
fn concatenation() {
    assert_eq!(combine("ab", "cd"), "abcd");
    assert_eq!(combine("", "x"), "x");
}
