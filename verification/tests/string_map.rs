//! Maps by text.

use bot_polymarket_rust::string_map::StringMap;

#[test]
fn what_is_put_in_is_found_until_it_is_taken_out() {
    let mut m: StringMap<u32> = StringMap::new();
    assert!(m.is_empty());
    m.insert("b".to_string(), 2);
    m.insert("a".to_string(), 1);
    m.insert("c".to_string(), 3);
    m.insert("b".to_string(), 20);
    assert_eq!(m.len(), 3);
    assert_eq!(m.get("a"), Some(&1));
    assert_eq!(m.get("b"), Some(&20));
    assert_eq!(m.get("d"), None);
    assert!(m.contains_key("c") && !m.contains_key(""));
    assert_eq!(m.remove("b"), Some(20));
    assert_eq!(m.remove("b"), None);
    assert_eq!(m.get("a"), Some(&1));
    assert_eq!(m.get("c"), Some(&3));
    let mut keys = m.keys();
    keys.sort();
    assert_eq!(keys, vec!["a".to_string(), "c".to_string()]);
    assert_eq!(m.len(), 2);
    for i in 0..m.len() {
        let (k, v) = m.entry(i);
        assert_eq!(m.get(k), Some(v));
    }
}

#[test]
fn a_duplicate_has_the_same_entries() {
    let mut m: StringMap<String> = StringMap::new();
    m.insert("a".to_string(), "x".to_string());
    let mut d = m.duplicate();
    d.insert("b".to_string(), "y".to_string());
    assert_eq!(m.len(), 1);
    assert_eq!(d.get("a").map(String::as_str), Some("x"));
    assert_eq!(d.len(), 2);
}
