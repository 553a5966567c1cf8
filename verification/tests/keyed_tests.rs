use wallet_api::keyed::{str_eq, KeyedList};

#[test]
fn keyed_list_insert_get_push() {
    let mut m: KeyedList<u32> = KeyedList::new();
    m.insert(("a".into(), "g".into()), 1);
    m.insert(("b".into(), "g".into()), 2);
    m.insert(("a".into(), "g".into()), 3);
    assert_eq!(m.len(), 2);
    assert_eq!(m.get("a", "g"), Some(&3));
    assert_eq!(m.get("b", "g"), Some(&2));
    assert_eq!(m.get("a", "h"), None);
    assert_eq!(m.find("b", "g"), Some(1));
    assert_eq!(m.key_at(0), &("a".to_string(), "g".to_string()));
    assert_eq!(m.value_at(1), &2);

    let mut l: KeyedList<Vec<u32>> = KeyedList::new();
    l.push_value(("k".into(), "g".into()), 1);
    l.push_value(("k".into(), "g".into()), 2);
    l.push_value(("j".into(), "g".into()), 3);
    assert_eq!(l.get("k", "g"), Some(&vec![1, 2]));
    assert_eq!(l.get("j", "g"), Some(&vec![3]));
    assert!(str_eq("x", "x") && !str_eq("x", "y"));
}
