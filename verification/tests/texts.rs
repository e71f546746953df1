use active_call::maps::StringMap;
use active_call::text;

#[test]
fn trimming_takes_white_space_off() {
    assert_eq!(text::trim(" \t\u{3000}a b\u{a0}\n"), "a b");
    assert_eq!(text::trim("  "), "");
    assert_eq!(text::trim_end_char("a//", '/'), "a");
    assert_eq!(text::trim_end_char("//", '/'), "");
}

#[test]
fn pieces_of_texts() {
    assert_eq!(text::split_char("a,,b", ','), vec!["a", "", "b"]);
    assert_eq!(text::split_char("", ','), vec![""]);
    let parts = vec!["x".to_string(), "yz".to_string()];
    assert_eq!(text::join(&parts, ","), "x,yz");
    assert_eq!(text::split_char(&text::join(&parts, ","), ','), parts);
    assert_eq!(text::before_first("a;b?c", ';', '?'), "a");
    assert_eq!(text::strip_prefix("abc", "ab"), Some("c".to_string()));
    assert_eq!(text::strip_prefix("abc", "b"), None);
    assert_eq!(text::slice("héllo", 1, 3), "él");
}

#[test]
fn searching_texts() {
    assert!(text::contains("hello", "ll"));
    assert!(!text::contains("hello", "lo "));
    assert!(text::contains("x", ""));
    assert_eq!(text::count_char("a:b:", ':'), 2);
    assert_eq!(text::find_char("é<", '<'), Some(1));
    assert_eq!(text::rfind_char("<a<", '<'), Some(2));
    assert_eq!(text::rfind_char("a", '<'), None);
    assert!(text::eq_ignore_ascii_case("AbÉ", "aBÉ"));
    assert!(!text::eq_ignore_ascii_case("É", "é"));
    assert_eq!(text::to_ascii_lower("ÀZ"), "Àz");
}

#[test]
fn maps_keep_the_first_place() {
    let mut m = StringMap::new();
    assert!(m.is_empty());
    m.insert("a".to_string(), "1".to_string());
    m.insert("b".to_string(), "2".to_string());
    m.insert("a".to_string(), "3".to_string());
    assert_eq!(
        m.entries,
        vec![("a".to_string(), "3".to_string()), ("b".to_string(), "2".to_string())]
    );
    assert_eq!(m.clone(), m);
    assert_eq!(m.get("a"), Some("3".to_string()));
    assert_eq!(m.get("z"), None);
}
