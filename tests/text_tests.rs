use ccsessionctl::text::{contains_str, has_prefix, truncate_chars, truncate_message};

#[test]
fn test_truncate_message() {
    assert_eq!(truncate_message("short", 10), "short");
    assert_eq!(truncate_message("this is a long message", 10), "this is...");
    assert_eq!(truncate_message("  spaced  ", 20), "spaced");
}

#[test]
fn test_truncate_with_newlines() {
    assert_eq!(truncate_message("line1\nline2", 20), "line1 line2");
}

#[test]
fn truncation_cuts_to_exact_limit_with_ellipsis() {
    let s = "abcdefghij";
    let t = truncate_chars(s, 5);
    assert_eq!(t, "ab...");
    assert_eq!(t.chars().count(), 5);
    assert!(t.ends_with("..."));
}

#[test]
fn truncation_keeps_text_that_fits() {
    assert_eq!(truncate_chars("abcde", 5), "abcde");
    assert_eq!(truncate_chars("abcde", 9), "abcde");
    assert_eq!(truncate_chars("", 0), "");
}

#[test]
fn truncation_counts_characters_not_bytes() {
    let s = "ééééééééééé";
    let t = truncate_chars(s, 6);
    assert_eq!(t, "ééé...");
}

#[test]
fn truncation_with_tiny_limit_keeps_only_ellipsis() {
    assert_eq!(truncate_chars("abcdef", 2), "...");
}

#[test]
fn truncate_message_trims_then_cuts() {
    let long = "a".repeat(130);
    let t = truncate_message(&long, 100);
    assert_eq!(t.chars().count(), 100);
    assert_eq!(&t[..97], &long[..97]);
    assert!(t.ends_with("..."));
}

#[test]
fn trimming_removes_unicode_white_space() {
    assert_eq!(truncate_message("\u{3000}\t x \u{A0}\n", 10), "x");
    assert_eq!(truncate_message(" \u{2003} ", 10), "");
}

#[test]
fn prefix_and_substring_tests() {
    assert!(has_prefix("<system>x", "<system>"));
    assert!(!has_prefix("<sys", "<system>"));
    assert!(has_prefix("abc", ""));
    assert!(contains_str("hello foo bar", "foo"));
    assert!(contains_str("abc", "c"));
    assert!(contains_str("", ""));
    assert!(!contains_str("hello bar", "foo"));
    assert!(!contains_str("ab", "abc"));
    assert!(contains_str("héllo wörld", "ö"));
}
