use reeve::pact::table::StrMap;

#[test]
fn insert_then_get_returns_the_value() {
    let mut m: StrMap<u32> = StrMap::new();
    assert_eq!(m.len(), 0);
    m.insert("b".to_owned(), 2);
    m.insert("a".to_owned(), 1);
    m.insert("c".to_owned(), 3);
    assert_eq!(m.get("a"), Some(&1));
    assert_eq!(m.get("b"), Some(&2));
    assert_eq!(m.get("c"), Some(&3));
    assert_eq!(m.get("d"), None);
    assert!(m.contains_key("c"));
    assert!(!m.contains_key(""));
}

#[test]
fn insert_replaces_and_keeps_key_order() {
    let mut m: StrMap<u32> = StrMap::new();
    for (k, v) in [("zeta", 1), ("alpha", 2), ("mid", 3), ("alpha", 4), ("Alpha", 5)] {
        m.insert(k.to_owned(), v);
    }
    assert_eq!(m.len(), 4);
    let keys: Vec<String> = (0..m.len()).map(|i| m.key_at(i).clone()).collect();
    assert_eq!(keys, vec!["Alpha", "alpha", "mid", "zeta"]);
    assert_eq!(m.get("alpha"), Some(&4));
    assert_eq!(*m.value_at(0), 5);
}

#[test]
fn clone_keeps_the_entries() {
    let mut m: StrMap<u32> = StrMap::new();
    m.insert("x".to_owned(), 9);
    m.insert("é".to_owned(), 8);
    let c = m.clone();
    assert_eq!(c.len(), 2);
    assert_eq!(c.get("x"), Some(&9));
    assert_eq!(c.get("é"), Some(&8));
    assert_eq!(c.key_at(0), "x");
}
