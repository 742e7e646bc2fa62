use sys_scripts::text::{
    contains_str, eq_ignore_ascii_case_str, equals_str, find, join_lines_str, join_path,
    replace_all_str, replace_first_str, trim_str, trimmed_output,
};

#[test]
fn finding() {
    assert_eq!(find("héllo wörld", "wö"), Some(6));
    assert_eq!(find("abc", ""), Some(0));
    assert_eq!(find("abc", "abcd"), None);
    assert!(contains_str("aab", "ab"));
    assert!(!contains_str("", "a"));
}

#[test]
fn replacing() {
    assert_eq!(replace_all_str("aaaa", "aa", "b"), "bb");
    assert_eq!(replace_all_str("xaaay", "aa", "a"), "xaay");
    assert_eq!(replace_first_str("a-a-a", "a", "b"), "b-a-a");
    assert_eq!(replace_first_str("abc", "z", "b"), "abc");
}

#[test]
fn trimming_and_case() {
    assert_eq!(trim_str("\u{3000}\t x y \r\n"), "x y");
    assert_eq!(trim_str("   "), "");
    assert!(eq_ignore_ascii_case_str("AuTo", "auto"));
    assert_eq!(eq_ignore_ascii_case_str("Äuto", "äuto"), "Äuto".eq_ignore_ascii_case("äuto"));
    assert!(!eq_ignore_ascii_case_str("auto", "autos"));
    assert!(equals_str("x", "x"));
    assert!(!equals_str("x", "xy"));
}

#[test]
fn joining() {
    assert_eq!(join_lines_str(&vec!["a".to_string(), "".to_string(), "c".to_string()]), "a\n\nc");
    assert_eq!(join_lines_str(&vec![]), "");
    assert_eq!(join_path("/a", "b"), "/a/b");
    assert_eq!(join_path("/a/", "b"), "/a/b");
    assert_eq!(join_path("", "b"), "b");
    assert_eq!(join_path("/a", "/b"), "/b");
}

#[test]
fn trimming_twice_changes_nothing() {
    for s in ["  a b  ", "\n\u{2028}x\u{85}", "", " ", "x"] {
        let once = trim_str(s);
        assert_eq!(trim_str(once), once);
        assert_eq!(once, s.trim());
    }
}

#[test]
fn command_output_text() {
    assert_eq!(trimmed_output(b"  90210\n"), "90210");
    assert_eq!(trimmed_output(b"a\xffb\n"), "a\u{fffd}b");
    assert_eq!(trimmed_output(b""), "");
}
