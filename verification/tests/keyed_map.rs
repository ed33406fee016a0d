use mig_gpu_mon::keyed::ByUuid;

#[test]
fn insert_get_remove() {
    let mut m: ByUuid<u32> = ByUuid::new();
    m.insert("a".to_string(), 1);
    m.insert("b".to_string(), 2);
    m.insert("a".to_string(), 3);
    assert_eq!(m.len(), 2);
    assert_eq!(m.get(&"a".to_string()), Some(&3));
    assert_eq!(m.remove(&"a".to_string()), Some(3));
    assert_eq!(m.remove(&"a".to_string()), None);
    assert_eq!(m.get(&"a".to_string()), None);
    assert_eq!(m.len(), 1);
}

#[test]
fn retain_keys_keeps_listed() {
    let mut m: ByUuid<u32> = ByUuid::new();
    for (i, k) in ["a", "b", "c", "d"].iter().enumerate() {
        m.insert(k.to_string(), i as u32);
    }
    m.retain_keys(&vec!["d".to_string(), "b".to_string(), "z".to_string()]);
    assert_eq!(m.len(), 2);
    assert_eq!(m.get(&"b".to_string()), Some(&1));
    assert_eq!(m.get(&"d".to_string()), Some(&3));
    assert_eq!(m.get(&"a".to_string()), None);
}
