use msg_supabase::keyset::KeySet;

#[test]
fn a_key_is_held_once() {
    let mut set = KeySet::default();
    assert!(set.is_empty());
    set.insert("a".to_string());
    set.insert("b".to_string());
    set.insert("a".to_string());
    assert_eq!(set.len(), 2);
    assert!(set.contains("a") && set.contains("b") && !set.contains("c"));

    let copy = set.clone();
    set.remove("a");
    set.remove("c");
    assert_eq!(set.keys(), ["b".to_string()]);
    assert!(!set.contains("a"));
    set.clear();
    assert!(set.is_empty() && !set.contains("b"));
    assert_eq!(copy.len(), 2);
}
