use gamm::assoc::StrMap;
use gamm::text::slice_of;

#[test]
fn a_table_keeps_one_value_per_key() {
    let mut t: StrMap<u32> = StrMap::new();
    assert_eq!(t.len(), 0);
    t.insert("a".to_string(), 1);
    t.insert("b".to_string(), 2);
    t.insert("a".to_string(), 3);
    assert_eq!(t.len(), 2);
    assert_eq!(t.get("a"), Some(&3));
    assert_eq!(t.get("b"), Some(&2));
    assert_eq!(t.get("c"), None);
    assert_eq!(t.position("a"), Some(0));
    assert_eq!(t.position("b"), Some(1));
    assert_eq!(t.position("c"), None);
    assert_eq!(t.key_at(1), "b");
    assert_eq!(*t.value_at(0), 3);
}

#[test]
fn removing_keeps_the_order_of_the_rest() {
    let mut t: StrMap<u32> = StrMap::new();
    t.insert("a".to_string(), 1);
    t.insert("b".to_string(), 2);
    t.insert("c".to_string(), 3);
    assert_eq!(t.remove("b"), Some(2));
    assert_eq!(t.remove("b"), None);
    assert_eq!(t.len(), 2);
    assert_eq!(t.key_at(0), "a");
    assert_eq!(t.key_at(1), "c");
    assert_eq!(*t.value_at(1), 3);
    t.insert("b".to_string(), 4);
    assert_eq!(t.key_at(2), "b");
}

#[test]
fn slices_are_copied_by_bounds() {
    let v = vec!['a', 'b', 'c', 'd'];
    assert_eq!(slice_of(&v, 1, 3), vec!['b', 'c']);
    assert_eq!(slice_of(&v, 2, 2), Vec::<char>::new());
    assert_eq!(slice_of(&v, 0, 4), v);
}

#[test]
fn a_table_from_entries_binds_first_to_last() {
    let t = StrMap::from_entries(vec![
        ("x".to_string(), 1u32),
        ("y".to_string(), 2),
        ("x".to_string(), 3),
    ]);
    assert_eq!(t.len(), 2);
    assert_eq!(t.get("x"), Some(&3));
    assert_eq!(t.get("y"), Some(&2));
    assert_eq!(t.key_at(0), "x");
}
