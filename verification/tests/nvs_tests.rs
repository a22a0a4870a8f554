use cyders::peripherals::nvs::{NvsStorage, NvsValue};

#[test]
fn test_nvs_basic() {
    let mut nvs = NvsStorage::new();

    nvs.set("test_u32", NvsValue::U32(42));
    nvs.set("test_str", NvsValue::String("hello".to_string()));

    assert_eq!(nvs.get_u32("test_u32"), Some(42));
    assert_eq!(nvs.get_string("test_str"), Some("hello".to_string()));

    // Reload from the stored pairs and verify persistence
    let nvs2 = NvsStorage::from_pairs(nvs.pairs());
    assert_eq!(nvs2.get_u32("test_u32"), Some(42));
    assert_eq!(nvs2.get_string("test_str"), Some("hello".to_string()));
}

#[test]
fn test_nvs_erase() {
    let mut nvs = NvsStorage::new();

    nvs.set("key1", NvsValue::U32(1));
    nvs.set("key2", NvsValue::U32(2));

    assert_eq!(nvs.len(), 2);
    assert!(nvs.erase("key1").0);
    assert_eq!(nvs.len(), 1);
    assert!(!nvs.key_exists("key1"));
    assert!(nvs.key_exists("key2"));
}

#[test]
fn nvs_overwrite_and_types() {
    let mut nvs = NvsStorage::new();
    assert!(nvs.is_empty());
    assert!(nvs.set("k", NvsValue::U32(1)));
    nvs.set("k", NvsValue::Blob(vec![1, 2, 3]));
    assert_eq!(nvs.len(), 1);
    assert_eq!(nvs.get_u32("k"), None);
    assert_eq!(nvs.get_string("k"), None);
    assert_eq!(nvs.get_blob("k"), Some(vec![1, 2, 3]));
    assert!(matches!(nvs.get("k"), Some(NvsValue::Blob(_))));
    assert!(nvs.get("missing").is_none());
    nvs.set("i", NvsValue::I64(-5));
    assert!(matches!(nvs.get("i"), Some(NvsValue::I64(-5))));
    assert_eq!(nvs.get_u32("i"), None);
}

#[test]
fn nvs_auto_save_decisions() {
    let mut nvs = NvsStorage::new();
    assert!(nvs.auto_save());
    assert!(nvs.set("a", NvsValue::U8(1)));
    assert_eq!(nvs.erase("nope"), (false, false));
    assert_eq!(nvs.erase("a"), (true, true));
    nvs.set_auto_save(false);
    assert!(!nvs.set("b", NvsValue::U8(2)));
    assert_eq!(nvs.erase("b"), (true, false));
    assert!(!nvs.clear());
    assert!(nvs.is_empty());
}

#[test]
fn nvs_keys_and_clear() {
    let mut nvs = NvsStorage::new();
    nvs.set("x", NvsValue::I8(-1));
    nvs.set("y", NvsValue::U16(7));
    nvs.set("x", NvsValue::I16(-2));
    let mut keys = nvs.keys();
    keys.sort();
    assert_eq!(keys, vec!["x".to_string(), "y".to_string()]);
    assert!(nvs.clear());
    assert_eq!(nvs.len(), 0);
    assert!(nvs.keys().is_empty());
}

#[test]
fn nvs_load_last_pair_wins() {
    let pairs = vec![
        ("a".to_string(), NvsValue::U32(1)),
        ("b".to_string(), NvsValue::U64(2)),
        ("a".to_string(), NvsValue::U32(3)),
    ];
    let nvs = NvsStorage::from_pairs(pairs);
    assert_eq!(nvs.len(), 2);
    assert_eq!(nvs.get_u32("a"), Some(3));
    assert!(matches!(nvs.get("b"), Some(NvsValue::U64(2))));
}
