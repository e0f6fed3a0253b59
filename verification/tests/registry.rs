use rport::registry::Registry;

#[test]
fn names_stand_for_the_last_value() {
    let mut r: Registry<u32> = Registry::new();
    assert_eq!(r.get("a"), None);
    r.insert("a".to_string(), 1);
    r.insert("b".to_string(), 2);
    r.insert("a".to_string(), 3);
    assert_eq!(r.len(), 2);
    assert_eq!(r.get("a"), Some(&3));
    assert_eq!(r.get("b"), Some(&2));
    assert_eq!(r.remove("b"), Some(2));
    assert_eq!(r.remove("b"), None);
    assert_eq!(r.len(), 1);
    assert_eq!(r.name_at(0), "a");
    assert_eq!(r.value_at(0), &3);
}

#[test]
fn draining_hands_everything_out() {
    let mut r: Registry<u32> = Registry::new();
    r.insert("a".to_string(), 1);
    r.insert("b".to_string(), 2);
    assert_eq!(r.drain(), vec![1, 2]);
    assert_eq!(r.len(), 0);
    assert_eq!(r.get("a"), None);
}
