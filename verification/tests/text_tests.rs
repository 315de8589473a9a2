use rmux::order::{sort_pairs, sort_strings};
use rmux::text::{
    chars_of, contains_chars, count_matches_chars, find_from_exec, push_decimal,
    push_signed_decimal, replace_chars, starts_with_chars, str_eq, trim_chars,
};

fn cs(s: &str) -> Vec<char> {
    chars_of(s)
}

fn string_of(v: &[char]) -> String {
    v.iter().collect()
}

#[test]
fn characters_of_a_string() {
    assert_eq!(cs("héllo"), vec!['h', 'é', 'l', 'l', 'o']);
}

#[test]
fn trimming_matches_str_trim() {
    for s in ["  a b  ", "\t\n", "", "x", "\u{3000}wide\u{a0}"] {
        assert_eq!(string_of(&trim_chars(&cs(s))), s.trim());
    }
}

#[test]
fn searching() {
    assert_eq!(find_from_exec(&cs("abcabc"), &cs("c"), 0), Some(2));
    assert_eq!(find_from_exec(&cs("abcabc"), &cs("c"), 3), Some(5));
    assert_eq!(find_from_exec(&cs("abc"), &cs("d"), 0), None);
    assert!(contains_chars(&cs("hello"), &cs("ll")));
    assert!(!contains_chars(&cs("hello"), &cs("lll")));
    assert!(starts_with_chars(&cs("mcp_x"), &cs("mcp_")));
    assert!(!starts_with_chars(&cs("mc"), &cs("mcp_")));
    assert!(str_eq("a", "a"));
    assert!(!str_eq("a", "b"));
}

#[test]
fn replacing_and_counting_match_std() {
    for (s, p, r) in [("a-b-a", "a", "x"), ("aaaa", "aa", "b"), ("abc", "", "."), ("xyz", "q", "w")] {
        assert_eq!(string_of(&replace_chars(&cs(s), &cs(p), &cs(r))), s.replace(p, r));
        assert_eq!(count_matches_chars(&cs(s), &cs(p)), s.matches(p).count());
    }
}

#[test]
fn decimals() {
    let mut v = Vec::new();
    push_decimal(&mut v, 0);
    push_decimal(&mut v, 1234567890);
    push_signed_decimal(&mut v, -42);
    push_signed_decimal(&mut v, i64::MIN);
    assert_eq!(string_of(&v), format!("01234567890-42{}", i64::MIN));
}

#[test]
fn sorting_strings_and_pairs() {
    let v = vec!["b".to_string(), "a".to_string(), "B".to_string(), "ab".to_string()];
    let mut want = v.clone();
    want.sort();
    assert_eq!(sort_strings(v), want);
    let p = vec![("z.md".to_string(), "1".to_string()), ("a.md".to_string(), "2".to_string())];
    assert_eq!(sort_pairs(p), vec![("a.md".to_string(), "2".to_string()), ("z.md".to_string(), "1".to_string())]);
}

#[test]
fn sorting_pairs_keeps_equal_names_in_their_order() {
    let p = vec![
        ("b".to_string(), "1".to_string()),
        ("a".to_string(), "2".to_string()),
        ("b".to_string(), "3".to_string()),
        ("a".to_string(), "4".to_string()),
    ];
    assert_eq!(
        sort_pairs(p),
        vec![
            ("a".to_string(), "2".to_string()),
            ("a".to_string(), "4".to_string()),
            ("b".to_string(), "1".to_string()),
            ("b".to_string(), "3".to_string()),
        ]
    );
}
