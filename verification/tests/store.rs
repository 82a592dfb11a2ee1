use redis_kv::store::{Store, Value};

#[test]
fn test_get_of_absent_key() {
    let mut store = Store::new();
    assert_eq!(store.get("missing", 0), None);
}

#[test]
fn test_set_then_get() {
    let mut store = Store::new();
    store.set("k".to_string(), "v".to_string(), 10, None);
    assert_eq!(store.get("k", 10), Some("v".to_string()));
    assert_eq!(store.get("k", u64::MAX), Some("v".to_string()));
}

#[test]
fn test_set_replaces() {
    let mut store = Store::new();
    store.set("k".to_string(), "one".to_string(), 0, None);
    store.set("k".to_string(), "two".to_string(), 1, None);
    assert_eq!(store.get("k", 2), Some("two".to_string()));
}

#[test]
fn test_set_replaces_deadline() {
    let mut store = Store::new();
    store.set("k".to_string(), "one".to_string(), 0, Some(5));
    store.set("k".to_string(), "two".to_string(), 1, None);
    assert_eq!(store.get("k", 1000), Some("two".to_string()));
}

#[test]
fn test_value_expires_at_its_deadline() {
    let mut store = Store::new();
    store.set("k".to_string(), "v".to_string(), 100, Some(50));
    assert_eq!(store.get("k", 149), Some("v".to_string()));
    assert_eq!(store.get("k", 150), None);
}

#[test]
fn test_expired_value_stays_absent() {
    let mut store = Store::new();
    store.set("k".to_string(), "v".to_string(), 100, Some(50));
    assert_eq!(store.get("k", 200), None);
    assert_eq!(store.get("k", 200), None);
    assert_eq!(store.get("k", 0), None);
}

#[test]
fn test_zero_time_to_live() {
    let mut store = Store::new();
    store.set("k".to_string(), "v".to_string(), 7, Some(0));
    assert_eq!(store.get("k", 7), None);
}

#[test]
fn test_deadline_beyond_the_clock() {
    let mut store = Store::new();
    store.set("k".to_string(), "v".to_string(), u64::MAX, Some(u64::MAX));
    assert_eq!(store.get("k", u64::MAX), Some("v".to_string()));
    store.set("j".to_string(), "w".to_string(), u64::MAX, Some(1));
    assert_eq!(store.get("j", u64::MAX), Some("w".to_string()));
}

#[test]
fn test_keys_are_independent() {
    let mut store = Store::new();
    store.set("a".to_string(), "1".to_string(), 0, Some(10));
    store.set("b".to_string(), "2".to_string(), 0, None);
    assert_eq!(store.get("a", 10), None);
    assert_eq!(store.get("b", 10), Some("2".to_string()));
    assert_eq!(store.get("A", 0), None);
}

#[test]
fn test_two_writes_leave_one_value() {
    for first_wins in [false, true] {
        let mut store = Store::new();
        if first_wins {
            store.set("k".to_string(), "v2".to_string(), 0, None);
            store.set("k".to_string(), "v1".to_string(), 0, None);
            assert_eq!(store.get("k", 0), Some("v1".to_string()));
        } else {
            store.set("k".to_string(), "v1".to_string(), 0, None);
            store.set("k".to_string(), "v2".to_string(), 0, None);
            assert_eq!(store.get("k", 0), Some("v2".to_string()));
        }
    }
}

#[test]
fn test_value_without_deadline() {
    let value = Value::new("v".to_string());
    assert_eq!(value.payload(), "v");
    assert!(!value.is_expired(0));
    assert!(!value.is_expired(u64::MAX));
}

#[test]
fn test_value_with_timeout() {
    let value = Value::with_timeout("v".to_string(), 25, 1000);
    assert_eq!(value.payload(), "v");
    assert!(!value.is_expired(0));
    assert!(!value.is_expired(1024));
    assert!(value.is_expired(1025));
    assert!(value.is_expired(u64::MAX));
}
