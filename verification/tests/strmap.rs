use mechanics_config::StringMap;

#[test]
fn insert_replaces_in_place_and_appends_new_keys() {
    let mut m = StringMap::new();
    m.insert("a".to_owned(), 1);
    m.insert("b".to_owned(), 2);
    m.insert("a".to_owned(), 3);
    assert_eq!(m.len(), 2);
    assert_eq!(m.entries(), &[("a".to_owned(), 3), ("b".to_owned(), 2)]);
    assert_eq!(m.get("a"), Some(&3));
    assert_eq!(m.get("c"), None);
    assert!(m.contains_key("b"));
    assert!(!m.contains_key("B"));
}

#[test]
fn from_pairs_keeps_the_last_value_of_a_key() {
    let m = StringMap::from_pairs(vec![
        ("x".to_owned(), 1),
        ("y".to_owned(), 2),
        ("x".to_owned(), 3),
    ]);
    assert_eq!(m.into_entries(), vec![("x".to_owned(), 3), ("y".to_owned(), 2)]);
}

#[test]
fn remove_drops_only_that_key() {
    let mut m = StringMap::from_pairs(vec![("x".to_owned(), 1), ("y".to_owned(), 2)]);
    m.remove("x");
    assert_eq!(m.entries(), &[("y".to_owned(), 2)]);
    m.remove("nope");
    assert_eq!(m.len(), 1);
    m.remove("y");
    assert!(m.is_empty());
}
