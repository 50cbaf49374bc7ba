use ferridriver::text::{
    contains, decimal_string, is_whitespace, prefix_before, starts_with, str_eq, trim_matching,
};

#[test]
fn whitespace_agrees_with_std_for_every_char() {
    for u in 0..=0x10FFFFu32 {
        if let Some(c) = char::from_u32(u) {
            assert_eq!(is_whitespace(c), c.is_whitespace(), "U+{u:04X}");
        }
    }
}

#[test]
fn trimming_agrees_with_std() {
    for s in ["", " a ", "\u{2028}x\u{85}", "\t\n", "ab", " \"q\" "] {
        assert_eq!(trim_matching(s, false), s.trim());
        assert_eq!(
            trim_matching(s, true),
            s.trim_matches(|c: char| c == '"' || c == '\'' || c.is_whitespace())
        );
    }
}

#[test]
fn decimal_strings_match_to_string() {
    for n in [0u64, 7, 10, 99, 100, 30_000, u64::MAX] {
        assert_eq!(decimal_string(n), n.to_string());
    }
}

#[test]
fn substring_searches() {
    assert!(contains("node not found here", "not found"));
    assert!(contains("abc", ""));
    assert!(!contains("ab", "abc"));
    assert!(starts_with("error:notx", "error:not"));
    assert!(!starts_with("xerror:not", "error:not"));
    assert!(str_eq("été", "été"));
    assert!(!str_eq("a", "ab"));
    assert_eq!(prefix_before("a/b/c", '/'), "a");
    assert_eq!(prefix_before("abc", '/'), "abc");
}
