use knn_jni_rs::string_map::StringMap;
use knn_jni_rs::text::{decimal_i64, decimal_u64, join, pointer, same_text};

#[test]
fn numbers_are_written_out() {
    assert_eq!(decimal_u64(0), "0");
    assert_eq!(decimal_u64(u64::MAX), format!("{}", u64::MAX));
    assert_eq!(decimal_i64(-1), "-1");
    assert_eq!(decimal_i64(i64::MIN), format!("{}", i64::MIN));
    assert_eq!(decimal_i64(1203), "1203");
    assert_eq!(pointer(0), "0x0");
    assert_eq!(pointer(0xDEAD_BEEF), "0xdeadbeef");
    assert_eq!(join("a", "b"), "ab");
    assert!(same_text("l2", "l2"));
    assert!(!same_text("l2", "l1"));
}

#[test]
fn the_last_value_of_a_key_counts() {
    let mut map = StringMap::new();
    assert!(map.is_empty());
    map.insert("a".to_string(), 1);
    map.insert("b".to_string(), 2);
    map.insert("a".to_string(), 3);
    assert_eq!(map.len(), 2);
    assert_eq!(map.get("a"), Some(&3));
    assert_eq!(map.get("b"), Some(&2));
    assert_eq!(map.get("c"), None);
    assert!(map.contains_key("b"));
    map.clear();
    assert!(!map.contains_key("b"));
    assert_eq!(map.len(), 0);
}
