use steam_patch::text::{
    bytes_eq, contains_pattern, dec_bytes, replace_all_bytes, trim_bytes,
};

fn b(s: &str) -> Vec<u8> {
    s.as_bytes().to_vec()
}

#[test]
fn replace_scans_left_to_right_without_overlap() {
    assert_eq!(replace_all_bytes(&b("aaa"), &b("aa"), &b("b")), b("ba"));
    assert_eq!(replace_all_bytes(&b("aaaa"), &b("aa"), &b("b")), b("bb"));
}

#[test]
fn replace_when_find_equals_replace() {
    assert_eq!(replace_all_bytes(&b("xyx"), &b("x"), &b("x")), b("xyx"));
}

#[test]
fn replace_with_longer_replacement() {
    assert_eq!(replace_all_bytes(&b("a-a"), &b("a"), &b("long")), b("long-long"));
}

#[test]
fn replace_with_empty_replacement_deletes() {
    assert_eq!(replace_all_bytes(&b("a-a-a"), &b("-"), &b("")), b("aaa"));
}

#[test]
fn replace_empty_pattern_changes_nothing() {
    assert_eq!(replace_all_bytes(&b("abc"), &b(""), &b("zz")), b("abc"));
}

#[test]
fn replace_matches_standard_library_semantics() {
    let cases = [
        ("x A=1 y", "A=1", "A=2"),
        ("aaa", "aa", "b"),
        ("hello world hello", "hello", "bye"),
        ("no match at all", "zzz", "q"),
        ("edge", "edge", ""),
    ];
    for (s, f, r) in cases {
        assert_eq!(replace_all_bytes(&b(s), &b(f), &b(r)), b(&s.replace(f, r)));
    }
}

#[test]
fn contains_finds_patterns() {
    assert!(contains_pattern(&b("x A=1 y"), &b("A=1")));
    assert!(!contains_pattern(&b("x A=2 y"), &b("A=1")));
    assert!(contains_pattern(&b("abc"), &b("")));
    assert!(!contains_pattern(&b("ab"), &b("abc")));
    assert!(contains_pattern(&b("abc"), &b("abc")));
}

#[test]
fn byte_equality() {
    assert!(bytes_eq(&b("same"), &b("same")));
    assert!(!bytes_eq(&b("same"), &b("sama")));
    assert!(!bytes_eq(&b("short"), &b("shorter")));
    assert!(bytes_eq(&b(""), &b("")));
}

#[test]
fn trim_drops_outer_whitespace_only() {
    assert_eq!(trim_bytes(&b("  model name  ")), b("model name"));
    assert_eq!(trim_bytes(&b("\tx\r\n")), b("x"));
    assert_eq!(trim_bytes(&b("no-trim")), b("no-trim"));
    assert_eq!(trim_bytes(&b("   ")), b(""));
    assert_eq!(trim_bytes(&b("")), b(""));
    assert_eq!(trim_bytes(&b(" a b ")), b("a b"));
}

#[test]
fn decimal_formatting_matches_standard_formatter() {
    for n in [0i32, 7, 15, 2000, -15, 127, -128, 32767, -32768, 128000, i32::MAX, i32::MIN] {
        assert_eq!(dec_bytes(n), format!("{}", n).into_bytes());
    }
}
