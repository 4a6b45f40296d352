//! Texts: trimming, numbers, search, clipping, sorting.

use scaffold_ai::text::{
    chars_of, contains_text, decimal_text, is_blank, join, parse_u64, replace_all, same_text,
    signed_decimal_text, sort_unique, starts_with, strip_prefix, text_of, trim,
    truncate_to_budget, white_space,
};

#[test]
fn truncation_respects_char_boundaries() {
    let s = "héllo wörld".repeat(100);
    let t = truncate_to_budget(&s, 37);
    assert!(t.len() <= 37);
    assert!(s.starts_with(t));
}

#[test]
fn truncation_keeps_as_much_as_fits() {
    assert_eq!(truncate_to_budget("héllo", 1), "h");
    assert_eq!(truncate_to_budget("héllo", 2), "h");
    assert_eq!(truncate_to_budget("héllo", 3), "hé");
    assert_eq!(truncate_to_budget("héllo", 6), "héllo");
    assert_eq!(truncate_to_budget("héllo", 100), "héllo");
    assert_eq!(truncate_to_budget("𝄞", 3), "");
    assert_eq!(truncate_to_budget("", 0), "");
}

#[test]
fn white_space_agrees_with_char() {
    for n in 0..=0x10ffffu32 {
        if let Some(c) = char::from_u32(n) {
            assert_eq!(white_space(c), c.is_whitespace(), "{n:x}");
        }
    }
}

#[test]
fn trim_agrees_with_str() {
    for s in ["", " ", "a", " a ", "\t\n a b \u{3000}", "\u{85}x\u{2029}", "\u{feff}x"] {
        assert_eq!(trim(s), s.trim());
        assert_eq!(is_blank(s), s.trim().is_empty());
    }
}

#[test]
fn numbers_are_written_as_std_writes_them() {
    for n in [0u64, 7, 10, 99, 100, 12345, u64::MAX] {
        assert_eq!(decimal_text(n), n.to_string());
    }
    for n in [0i64, -1, 42, i64::MIN, i64::MAX] {
        assert_eq!(signed_decimal_text(n), n.to_string());
    }
}

#[test]
fn numbers_are_read_as_std_reads_them() {
    let texts = [
        "", "0", "7", "+7", "+", "-1", "007", " 7", "7 ", "18446744073709551615",
        "18446744073709551616", "99999999999999999999999", "1_000", "١", "++1", "0x10",
    ];
    for s in texts {
        assert_eq!(parse_u64(s), s.parse::<u64>().ok(), "{s}");
    }
}

#[test]
fn searching_agrees_with_str() {
    for (s, p) in [("abcab", "cab"), ("", ""), ("abc", ""), ("ab", "abc"), ("aäb", "ä"), ("x", "y")] {
        assert_eq!(starts_with(s, p), s.starts_with(p));
        assert_eq!(contains_text(s, p), s.contains(p));
        assert_eq!(strip_prefix(s, p), s.strip_prefix(p).map(|r| r.to_string()));
        assert_eq!(same_text(s, p), s == p);
    }
}

#[test]
fn replacing_agrees_with_str() {
    let cases = [
        ("a-b-c", "-", "+"), ("aaa", "aa", "b"), ("abc", "", "."), ("", "", "."), ("", "x", "y"),
        ("key=SECRET;SECRET", "SECRET", "[X]"), ("aäa", "ä", ""), ("ab", "abc", "z"),
    ];
    for (s, p, b) in cases {
        assert_eq!(replace_all(s, p, b), s.replace(p, b));
    }
}

#[test]
fn joining_agrees_with_std() {
    for list in [vec![], vec!["a"], vec!["a", "b", "c"], vec!["", ""]] {
        let owned: Vec<String> = list.iter().map(|s| s.to_string()).collect();
        assert_eq!(join(&owned, ", "), list.join(", "));
    }
}

#[test]
fn sorting_agrees_with_sort_and_dedup() {
    let lists = [
        vec![],
        vec!["b", "a", "b"],
        vec!["priority:low", "feature", "needs-tests", "feature", "Zed", "äh", "a", "ab", "", "𝄞", "\u{ffff}"],
    ];
    for list in lists {
        let mut expected: Vec<String> = list.iter().map(|s| s.to_string()).collect();
        let sorted = sort_unique(expected.clone());
        expected.sort();
        expected.dedup();
        assert_eq!(sorted, expected);
    }
}

#[test]
fn characters_make_texts_again() {
    let chars = chars_of("aäb");
    assert_eq!(chars, vec!['a', 'ä', 'b']);
    assert_eq!(text_of(&chars, 1, 3), "äb");
    assert_eq!(text_of(&chars, 1, 1), "");
}
