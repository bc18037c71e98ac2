use wolog::text::{
    chars_of, contains_string, contains_text, decimal_string, ends_with_text, parse_u32,
    same_text, starts_with, text_before, trim_end_matches, trim_start_chars, trim_start_matches,
};

#[test]
fn characters_and_equality() {
    assert_eq!(chars_of("añb"), vec!['a', 'ñ', 'b']);
    assert!(chars_of("").is_empty());
    assert!(same_text("abc", "abc"));
    assert!(!same_text("abc", "abd"));
    assert!(contains_string(&vec!["a".to_string(), "b".to_string()], "b"));
    assert!(!contains_string(&vec!["a".to_string(), "b".to_string()], "c"));
}

#[test]
fn prefixes_suffixes_and_substrings() {
    assert!(starts_with("notes/apples", "notes"));
    assert!(starts_with("notes", ""));
    assert!(starts_with("notes", "notes"));
    assert!(!starts_with("notes", "notes/"));
    assert!(!starts_with("xnotes", "notes"));
    assert!(ends_with_text("a.md", ".md"));
    assert!(!ends_with_text("a.mdx", ".md"));
    assert!(!ends_with_text("md", ".md"));
    assert!(contains_text("Apple pie", "le p"));
    assert!(contains_text("Apple pie", ""));
    assert!(contains_text("", ""));
    assert!(!contains_text("", "a"));
    assert!(!contains_text("Apple pie", "apple"));
    assert!(contains_text("Apple pie", "Apple pie"));
    assert!(!contains_text("Apple pie", "Apple pies"));
    assert!(contains_text("ünïcödé", "cö"));
}

#[test]
fn trimming_removes_every_repetition() {
    assert_eq!(trim_start_matches("ababc", "ab"), "c");
    assert_eq!(trim_start_matches("abc", "b"), "abc");
    assert_eq!(trim_start_matches("abc", ""), "abc");
    assert_eq!(trim_start_matches("aaa", "a"), "");
    assert_eq!(trim_start_matches("aaa", "aa"), "a");
    assert_eq!(trim_end_matches("a.md.md", ".md"), "a");
    assert_eq!(trim_end_matches("a.mdx", ".md"), "a.mdx");
    assert_eq!(trim_end_matches("a", ""), "a");
    assert_eq!(trim_end_matches(".md", ".md"), "");
    assert_eq!(trim_start_chars("./../a/b", "./"), "a/b");
    assert_eq!(trim_start_chars("a./", "./"), "a./");
    assert_eq!(trim_start_chars("///", "./"), "");
    assert_eq!(trim_start_chars("abc", ""), "abc");
}

#[test]
fn texts_are_ordered_as_strings_are() {
    let words = ["", "A", "Apple", "Apple pie", "B", "a", "apple", "é", "z", "zz"];
    for a in words {
        for b in words {
            assert_eq!(text_before(a, b), a < b, "{a:?} {b:?}");
        }
    }
}

#[test]
fn numbers_are_written_in_decimal() {
    assert_eq!(decimal_string(0), "0");
    assert_eq!(decimal_string(7), "7");
    assert_eq!(decimal_string(10), "10");
    assert_eq!(decimal_string(32), "32");
    assert_eq!(decimal_string(1009), "1009");
    assert_eq!(decimal_string(u32::MAX), "4294967295");
}

#[test]
fn numbers_are_read_from_decimal() {
    assert_eq!(parse_u32("0"), Some(0));
    assert_eq!(parse_u32("007"), Some(7));
    assert_eq!(parse_u32("+12"), Some(12));
    assert_eq!(parse_u32("4294967295"), Some(u32::MAX));
    assert_eq!(parse_u32("4294967296"), None);
    assert_eq!(parse_u32("99999999999999999999"), None);
    assert_eq!(parse_u32(""), None);
    assert_eq!(parse_u32("+"), None);
    assert_eq!(parse_u32("-1"), None);
    assert_eq!(parse_u32("1a"), None);
    assert_eq!(parse_u32(" 1"), None);
    assert_eq!(parse_u32("++1"), None);
    for n in [0u32, 1, 9, 10, 99, 100, 12345, u32::MAX] {
        assert_eq!(parse_u32(&decimal_string(n)), Some(n));
        assert_eq!(parse_u32(&n.to_string()), Some(n));
        assert_eq!(decimal_string(n), n.to_string());
    }
}
