use ezgraph::text::{chars_of, contains, is_whitespace, same_text, trim, trim_end_matches, trim_start_matches};

#[test]
fn trim_removes_unicode_white_space_at_both_ends() {
    assert_eq!(trim("  a b \n\t"), "a b");
    assert_eq!(trim("\u{3000}x\u{2028}"), "x");
    assert_eq!(trim(" \u{85}\u{a0} "), "");
    assert_eq!(trim("none"), "none");
    assert_eq!(trim("\u{200b}z"), "\u{200b}z");
}

#[test]
fn is_whitespace_agrees_with_char() {
    for c in ['\t', '\n', '\u{b}', '\u{c}', '\r', ' ', '\u{85}', '\u{a0}', '\u{1680}', '\u{2000}',
        '\u{200a}', '\u{2028}', '\u{2029}', '\u{202f}', '\u{205f}', '\u{3000}', 'a', '\u{200b}',
        '\u{feff}', '_', '\u{1f600}']
    {
        assert_eq!(is_whitespace(c), c.is_whitespace(), "{:?}", c);
    }
}

#[test]
fn repeated_prefixes_and_suffixes_are_stripped() {
    assert_eq!(trim_start_matches("```xml```xmlx", "```xml"), "x");
    assert_eq!(trim_start_matches("abc", ""), "abc");
    assert_eq!(trim_end_matches("a///", "/"), "a");
    assert_eq!(trim_end_matches("x``````", "```"), "x");
    assert_eq!(trim_end_matches("x````", "```"), "x`");
}

#[test]
fn contains_finds_substrings() {
    assert!(contains("<?xml?><mxfile>", "<mxfile"));
    assert!(!contains("<mxfil", "<mxfile"));
    assert!(contains("abc", ""));
    assert!(!contains("", "a"));
}

#[test]
fn chars_and_equality() {
    assert_eq!(chars_of("héllo"), vec!['h', 'é', 'l', 'l', 'o']);
    assert!(same_text("md", "md"));
    assert!(!same_text("md", "mD"));
}

#[test]
fn trimming_twice_changes_nothing_more() {
    for s in ["  a  ", "\u{3000}\tb c\n", "", "   ", "x"] {
        assert_eq!(trim(trim(s)), trim(s));
    }
}
