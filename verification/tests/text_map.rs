use opentelemetry_datadog::text_map::TextMap;

fn keys(map: &TextMap<i32>) -> Vec<(String, i32)> {
    let mut out = Vec::new();
    let mut i = 0;
    while let Some((key, value)) = map.entry(i) {
        out.push((key.clone(), *value));
        i += 1;
    }
    out
}

#[test]
fn a_new_map_is_empty() {
    let map: TextMap<i32> = TextMap::new();
    assert!(map.is_empty());
    assert_eq!(map.len(), 0);
    assert_eq!(map.get("a"), None);
    assert!(!map.contains_key("a"));
    assert!(map.entry(0).is_none());
}

#[test]
fn a_key_holds_the_value_set_last() {
    let mut map = TextMap::new();
    map.insert("a".to_string(), 1);
    map.insert("b".to_string(), 2);
    map.insert("".to_string(), 0);
    assert_eq!(map.len(), 3);
    assert!(!map.is_empty());
    assert_eq!(map.get("a"), Some(&1));
    assert_eq!(map.get("b"), Some(&2));
    assert_eq!(map.get(""), Some(&0));
    assert_eq!(map.get("A"), None);
    assert_eq!(map.get("ab"), None);
    assert!(map.contains_key("b"));
    assert!(!map.contains_key("c"));

    map.insert("a".to_string(), 10);
    assert_eq!(map.len(), 3);
    assert_eq!(map.get("a"), Some(&10));
    assert_eq!(map.get("b"), Some(&2));
}

#[test]
fn entries_keep_the_order_in_which_their_keys_arrived() {
    let mut map = TextMap::new();
    for (key, value) in [("x", 1), ("y", 2), ("z", 3), ("y", 20), ("w", 4), ("x", 10)] {
        map.insert(key.to_string(), value);
    }
    assert_eq!(
        keys(&map),
        vec![
            ("x".to_string(), 10),
            ("y".to_string(), 20),
            ("z".to_string(), 3),
            ("w".to_string(), 4)
        ]
    );
    assert!(map.entry(4).is_none());
    assert!(map.entry(usize::MAX).is_none());
}

#[test]
fn a_clone_holds_the_same_entries() {
    let mut map = TextMap::new();
    map.insert("one".to_string(), 1);
    map.insert("two".to_string(), 2);
    let mut copy = map.clone();
    assert_eq!(keys(&copy), keys(&map));
    copy.insert("one".to_string(), 100);
    copy.insert("three".to_string(), 3);
    assert_eq!(map.get("one"), Some(&1));
    assert_eq!(map.len(), 2);
    assert_eq!(copy.get("one"), Some(&100));
    assert_eq!(copy.len(), 3);
}

#[test]
fn keys_are_told_apart_by_every_character() {
    let mut map = TextMap::new();
    map.insert("caf\u{e9}".to_string(), 1);
    map.insert("cafe\u{301}".to_string(), 2);
    map.insert("cafe".to_string(), 3);
    assert_eq!(map.len(), 3);
    assert_eq!(map.get("caf\u{e9}"), Some(&1));
    assert_eq!(map.get("cafe\u{301}"), Some(&2));
    assert_eq!(map.get("cafe"), Some(&3));
}
