use ason_mcp::text::{chars_of, decimal_text, flag_text, replace_all, same_text};

#[test]
fn chars_in_order() {
    assert_eq!(chars_of(""), Vec::<char>::new());
    assert_eq!(chars_of("a\u{e9}\u{1f600}z"), vec!['a', '\u{e9}', '\u{1f600}', 'z']);
}

#[test]
fn same_text_compares_characters() {
    assert!(same_text("", ""));
    assert!(same_text("indent", "indent"));
    assert!(!same_text("indent", "indenT"));
    assert!(!same_text("indent", "indent "));
    assert!(!same_text("", "a"));
    assert!(same_text("na\u{ef}ve", "na\u{ef}ve"));
}

#[test]
fn replace_all_exchanges_every_match() {
    assert_eq!(replace_all("a-b-c", "-", "+"), "a+b+c");
    assert_eq!(replace_all("a-b-c", "-", ""), "abc");
    assert_eq!(replace_all("a-b-c", "-", "--"), "a--b--c");
    assert_eq!(replace_all("abc", "abc", "x"), "x");
    assert_eq!(replace_all("abc", "abcd", "x"), "abc");
    assert_eq!(replace_all("", "a", "x"), "");
    assert_eq!(replace_all("abc", "x", "y"), "abc");
    assert_eq!(replace_all("\"indent\": 1,", "\"indent\": 1", "\"indent\": 12"), "\"indent\": 12,");
}

#[test]
fn replace_all_takes_matches_from_the_left_without_overlap() {
    assert_eq!(replace_all("aaa", "aa", "b"), "ba");
    assert_eq!(replace_all("aaaa", "aa", "b"), "bb");
    assert_eq!(replace_all("ababa", "aba", "x"), "xba");
    assert_eq!(replace_all("aa", "a", "aa"), "aaaa");
    assert_eq!(replace_all("xaxbx", "x", "xx"), "xxaxxbxx");
}

#[test]
fn replace_all_with_empty_pattern_changes_nothing() {
    assert_eq!(replace_all("abc", "", "x"), "abc");
    assert_eq!(replace_all("", "", "x"), "");
}

#[test]
fn replace_all_counts_characters_not_bytes() {
    assert_eq!(replace_all("\u{e9}t\u{e9}", "\u{e9}", "e"), "ete");
    assert_eq!(replace_all("a\u{2192}b\u{2192}c", "\u{2192}", "->"), "a->b->c");
    assert_eq!(replace_all("a|b", "|", "\u{1f600}"), "a\u{1f600}b");
}

#[test]
fn replace_all_agrees_with_std_on_non_empty_patterns() {
    let texts = ["", "a", "aaaa", "abababab", "the cat sat on the mat", "\"x\": 1, \"y\": 1"];
    let patterns = ["a", "aa", "ab", "aba", "the", "at", "\": 1", "zzz"];
    let replacements = ["", "a", "b", "abab", "\": 22"];
    for text in texts {
        for pattern in patterns {
            for replacement in replacements {
                assert_eq!(
                    replace_all(text, pattern, replacement),
                    text.replace(pattern, replacement)
                );
            }
        }
    }
}

#[test]
fn decimal_text_is_canonical() {
    assert_eq!(decimal_text(0), "0");
    assert_eq!(decimal_text(7), "7");
    assert_eq!(decimal_text(10), "10");
    assert_eq!(decimal_text(99), "99");
    assert_eq!(decimal_text(100), "100");
    assert_eq!(decimal_text(255), "255");
    assert_eq!(decimal_text(1234567890), "1234567890");
    assert_eq!(decimal_text(u64::MAX), "18446744073709551615");
    for n in 0..=300u64 {
        assert_eq!(decimal_text(n), n.to_string());
        assert_eq!(decimal_text(n).parse::<u64>(), Ok(n));
    }
}

#[test]
fn flags_are_true_and_false() {
    assert_eq!(flag_text(true), "true");
    assert_eq!(flag_text(false), "false");
}
