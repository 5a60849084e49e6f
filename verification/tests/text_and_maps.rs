use raven::strmap::StrMap;
use raven::text::{
    chars_of, contains, owned, parse_usize, replace, replace_char, split, starts_with,
    str_eq, string_from_chars, take_chars, trim, trim_start_matches,
};

#[test]
fn chars_round_trip() {
    let v = chars_of("希尔薇 ok");
    assert_eq!(v, vec!['希', '尔', '薇', ' ', 'o', 'k']);
    assert_eq!(string_from_chars(&v), "希尔薇 ok");
    assert_eq!(owned("abc"), "abc");
}

#[test]
fn string_equality_and_concat() {
    assert!(str_eq("我", "我"));
    assert!(!str_eq("我", "我们"));
    assert!(str_eq("", ""));
}

#[test]
fn prefixes_and_contains() {
    assert!(starts_with("assets/characters/ling", "assets/"));
    assert!(!starts_with("asset", "assets/"));
    assert!(starts_with("x", ""));
    assert!(contains("width >= 800", ">="));
    assert!(!contains("width > 800", ">="));
    assert!(contains("abc", ""));
}

#[test]
fn replace_matches_std() {
    assert_eq!(replace("$title - $title", "$title", "Raven"), "Raven - Raven");
    assert_eq!(replace("aaa", "aa", "b"), "ba");
    assert_eq!(replace("none here", "$x", "y"), "none here");
    assert_eq!(replace("aaa", "aa", "b"), "aaa".replace("aa", "b"));
    assert_eq!(replace("abc", "", "-"), "-a-b-c-");
    assert_eq!(replace("", "", "-"), "".replace("", "-"));
}

#[test]
fn take_and_replace_chars() {
    assert_eq!(take_chars("你好世界", 2), "你好");
    assert_eq!(take_chars("abc", 10), "abc");
    assert_eq!(take_chars("abc", 0), "");
    assert_eq!(replace_char("a\\b\\c", '\\', '/'), "a/b/c");
}

#[test]
fn trim_start_matches_removes_every_leading_copy() {
    assert_eq!(trim_start_matches("assets/assets/x", "assets/"), "x");
    assert_eq!(trim_start_matches("x/assets/", "assets/"), "x/assets/");
    assert_eq!(trim_start_matches("abc", ""), "abc");
}

#[test]
fn parse_usize_matches_std() {
    for text in ["0", "42", "+5", "", "+", "-1", "4a", " 1", "007", "18446744073709551616"] {
        assert_eq!(parse_usize(text), text.parse::<usize>().ok(), "input {:?}", text);
    }
    assert_eq!(parse_usize("+5"), Some(5));
    assert_eq!(parse_usize("18446744073709551616"), None);
}

#[test]
fn trim_matches_std() {
    for text in ["  a b  ", "\t\nx\u{3000}", "", "   ", "y"] {
        assert_eq!(trim(text), text.trim(), "input {:?}", text);
    }
}

#[test]
fn split_matches_std() {
    for (text, pat) in [("a and b and c", " and "), ("x", " and "), ("", ","), (",a,,", ","), ("abc", ""), ("", "")] {
        let expected: Vec<String> = text.split(pat).map(|p| p.to_string()).collect();
        assert_eq!(split(text, pat), expected, "input {:?}", text);
    }
}

#[test]
fn strmap_insert_then_get() {
    let mut m: StrMap<usize> = StrMap::new();
    assert_eq!(m.len(), 0);
    m.insert("start".to_string(), 3);
    m.insert("end".to_string(), 7);
    assert_eq!(m.get("start"), Some(&3));
    assert_eq!(m.get("end"), Some(&7));
    assert_eq!(m.get("middle"), None);
    m.insert("start".to_string(), 9);
    assert_eq!(m.len(), 2);
    assert_eq!(m.get("start"), Some(&9));
    assert!(m.contains_key("end"));
    assert!(!m.contains_key("x"));
    assert_eq!(m.position("end"), Some(1));
    let (k, v) = m.entry(0);
    assert_eq!((k.as_str(), *v), ("start", 9));
}
