use esprit::text::{
    decimal_string, insert_sorted_unique, is_whitespace, join, lines_of, split_words, str_contains, str_lt, trim,
};

#[test]
fn decimal_string_writes_digits() {
    assert_eq!(decimal_string(0), "0");
    assert_eq!(decimal_string(42), "42");
    assert_eq!(decimal_string(u64::MAX), "18446744073709551615");
}

#[test]
fn join_follows_path_rules() {
    assert_eq!(join("/home/u", "Esprit"), "/home/u/Esprit");
    assert_eq!(join("/home/u/", "Esprit"), "/home/u/Esprit");
    assert_eq!(join("", "a"), "a");
    assert_eq!(join("/home/u", "/etc"), "/etc");
}

#[test]
fn string_order_is_lexicographic() {
    assert!(str_lt("a", "b"));
    assert!(str_lt("ab", "abc"));
    assert!(!str_lt("abc", "abc"));
    assert!(!str_lt("b", "a"));
}

#[test]
fn sorted_insert_keeps_one_copy() {
    let mut v: Vec<String> = Vec::new();
    insert_sorted_unique(&mut v, "b".to_string());
    insert_sorted_unique(&mut v, "a".to_string());
    insert_sorted_unique(&mut v, "c".to_string());
    insert_sorted_unique(&mut v, "b".to_string());
    assert_eq!(v, vec!["a".to_string(), "b".to_string(), "c".to_string()]);
}

#[test]
fn trim_removes_unicode_whitespace() {
    assert_eq!(trim("  hello \n"), "hello");
    assert_eq!(trim("\u{3000}x\u{a0}"), "x");
    assert_eq!(trim("   "), "");
    assert!(is_whitespace('\t'));
    assert!(!is_whitespace('x'));
}

#[test]
fn trimming_twice_is_trimming_once() {
    for s in ["  a b  ", "\n\tx", "", "plain"] {
        let once = trim(s);
        assert_eq!(trim(&once), once);
    }
}

#[test]
fn lines_match_std_lines() {
    for s in ["a\nb", "a\r\nb\n", "\n\nx", "", "only", "end\r", "x\n\n", "a\rb\nc"] {
        let expected: Vec<String> = s.lines().map(String::from).collect();
        assert_eq!(lines_of(s), expected, "{s:?}");
    }
}

#[test]
fn words_match_std_split_whitespace() {
    for s in ["rustc 1.80.0 (abc 2024)", "  git   version\t2.43.0\n", "", "   ", "one"] {
        let expected: Vec<String> = s.split_whitespace().map(String::from).collect();
        assert_eq!(split_words(s), expected, "{s:?}");
    }
}

#[test]
fn contains_finds_substrings() {
    assert!(str_contains("Already up to date.", "Already up to date"));
    assert!(str_contains("abc", ""));
    assert!(!str_contains("ab", "abc"));
    assert!(!str_contains("error: conflict", "Already"));
}
