use bencher::strmap::StrMap;
use bencher::text::{decimal_text, find_char, replace_text, text_after, text_before, text_contains};

#[test]
fn find_char_gives_first_position() {
    assert_eq!(find_char("img/resize/x", '/'), Some(3));
    assert_eq!(find_char("plain", '/'), None);
    assert_eq!(find_char("", '/'), None);
    assert_eq!(find_char("/lead", '/'), Some(0));
}

#[test]
fn text_before_and_after_split_at_first_char() {
    assert_eq!(text_before("a:b:c", ':'), "a");
    assert_eq!(text_after("a:b:c", ':'), Some("b:c".to_string()));
    assert_eq!(text_before("abc", ':'), "abc");
    assert_eq!(text_after("abc", ':'), None);
    assert_eq!(text_after("abc:", ':'), Some(String::new()));
}

#[test]
fn text_contains_finds_substrings() {
    assert!(text_contains("tokio::hyper::client", "hyper"));
    assert!(!text_contains("tokio::net", "hyper"));
    assert!(text_contains("anything", ""));
    assert!(!text_contains("", "x"));
    assert!(text_contains("async_raft", "async_raft"));
}

#[test]
fn replace_text_replaces_every_occurrence() {
    assert_eq!(replace_text("a${REQUEST_ID}b${REQUEST_ID}", "${REQUEST_ID}", "42"), "a42b42");
    assert_eq!(replace_text("nothing here", "${REQUEST_ID}", "42"), "nothing here");
    assert_eq!(replace_text("aaa", "aa", "b"), "ba");
    assert_eq!(replace_text("", "x", "y"), "");
}

#[test]
fn decimal_text_renders_numbers() {
    assert_eq!(decimal_text(0), "0");
    assert_eq!(decimal_text(7), "7");
    assert_eq!(decimal_text(10), "10");
    assert_eq!(decimal_text(12345), "12345");
    assert_eq!(decimal_text(u64::MAX), u64::MAX.to_string());
}

#[test]
fn strmap_insert_get_remove() {
    let mut m: StrMap<u32> = StrMap::new();
    assert_eq!(m.get("a"), None);
    m.insert("a".to_string(), 1);
    m.insert("b".to_string(), 2);
    m.insert("a".to_string(), 3);
    assert_eq!(m.get("a"), Some(&3));
    assert_eq!(m.get("b"), Some(&2));
    assert!(m.contains_key("b"));
    m.remove("a");
    assert_eq!(m.get("a"), None);
    assert!(!m.contains_key("a"));
    assert_eq!(m.get("b"), Some(&2));
}

#[test]
fn strmap_from_entries_keeps_order() {
    let m = StrMap::from_entries(vec![("k".to_string(), 1u8), ("j".to_string(), 2u8)]);
    assert_eq!(m.get("k"), Some(&1));
    assert_eq!(m.get("j"), Some(&2));
    assert_eq!(m.len(), 2);
    assert_eq!(m.key_at(1), "j");
    assert_eq!(*m.value_at(0), 1);
}

#[test]
fn strmap_overwrite_keeps_one_entry() {
    let mut m: StrMap<u8> = StrMap::new();
    m.insert("a".to_string(), 1);
    m.insert("a".to_string(), 2);
    assert_eq!(m.len(), 1);
    assert_eq!(m.get("a"), Some(&2));
    let c = m.clone();
    assert_eq!(c.get("a"), Some(&2));
}
