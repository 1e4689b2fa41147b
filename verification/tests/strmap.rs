use watchtower::strmap::StringMap;

#[test]
fn a_new_map_is_empty() {
    let map: StringMap<u32> = StringMap::new();
    assert_eq!(map.len(), 0);
    assert!(!map.contains_key("a"));
    assert!(map.get("a").is_none());
    assert!(map.position("a").is_none());
}

#[test]
fn insert_adds_or_replaces() {
    let mut map: StringMap<u32> = StringMap::new();
    assert_eq!(map.insert("a".to_string(), 1), None);
    assert_eq!(map.insert("b".to_string(), 2), None);
    assert_eq!(map.insert("a".to_string(), 3), Some(1));
    assert_eq!(map.len(), 2);
    assert_eq!(map.get("a"), Some(&3));
    assert_eq!(map.get("b"), Some(&2));
    assert_eq!(map.position("a"), Some(0));
    assert_eq!(map.position("b"), Some(1));
    assert_eq!(map.key_at(0), "a");
    assert_eq!(map.value_at(0), &3);
    assert_eq!(map.key_at(1), "b");
    assert_eq!(map.value_at(1), &2);
}

#[test]
fn remove_takes_the_entry_out() {
    let mut map: StringMap<u32> = StringMap::new();
    map.insert("a".to_string(), 1);
    map.insert("b".to_string(), 2);
    map.insert("c".to_string(), 3);
    assert_eq!(map.remove("b"), Some(2));
    assert_eq!(map.remove("b"), None);
    assert_eq!(map.remove("z"), None);
    assert_eq!(map.len(), 2);
    assert!(map.contains_key("a"));
    assert!(!map.contains_key("b"));
    assert_eq!(map.get("c"), Some(&3));
    assert_eq!(map.key_at(1), "c");
}

#[test]
fn keys_differ_by_any_character() {
    let mut map: StringMap<u32> = StringMap::new();
    map.insert("foo".to_string(), 1);
    map.insert("fo".to_string(), 2);
    map.insert("".to_string(), 3);
    map.insert("Foo".to_string(), 4);
    assert_eq!(map.len(), 4);
    assert_eq!(map.get("foo"), Some(&1));
    assert_eq!(map.get("fo"), Some(&2));
    assert_eq!(map.get(""), Some(&3));
    assert_eq!(map.get("Foo"), Some(&4));
    assert_eq!(map.get("f"), None);
}
