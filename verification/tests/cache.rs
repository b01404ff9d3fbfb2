use esprit::cache::Cache;

#[test]
fn cached_values_come_back() {
    let c: Cache<String, u32> = Cache::default();
    assert_eq!(c.get(&"a".to_string()), None);
    c.insert("a".to_string(), 1);
    c.insert("b".to_string(), 2);
    c.insert("a".to_string(), 3);
    assert_eq!(c.get(&"a".to_string()), Some(3));
    assert_eq!(c.get(&"b".to_string()), Some(2));
}
