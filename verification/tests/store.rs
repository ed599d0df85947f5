use susi::store::HighDensityContextStore;

#[test]
fn test_context_store_eviction_past_capacity_does_not_self_deadlock() {
    let mut store = HighDensityContextStore::new(4);
    for i in 0..20 {
        store.insert(format!("key{}", i), format!("value{}", i));
    }
    assert_eq!(store.iter().len(), 4);
    assert_eq!(store.get("key19"), Some("value19".to_string()));
}

#[test]
fn test_context_store_read_after_write_and_overwrite() {
    let mut store = HighDensityContextStore::new(2);
    assert!(store.is_empty());
    store.insert("SearchAgent".to_string(), "found".to_string());
    store.insert("SearchAgent".to_string(), "found again".to_string());
    assert_eq!(store.get("SearchAgent"), Some("found again".to_string()));
    assert!(store.contains_key("SearchAgent"));
    assert!(!store.contains_key("Other"));
    assert_eq!(store.get("Other"), None);
    store.insert("B".to_string(), "b".to_string());
    assert_eq!(store.iter().len(), 2);
    store.insert("C".to_string(), "c".to_string());
    let entries = store.iter();
    assert_eq!(entries.len(), 2);
    assert_eq!(store.get("C"), Some("c".to_string()));
}

#[test]
fn test_context_store_capacity_zero_keeps_latest() {
    let mut store = HighDensityContextStore::new(0);
    store.insert("a".to_string(), "1".to_string());
    store.insert("b".to_string(), "2".to_string());
    assert_eq!(store.iter().len(), 1);
    assert_eq!(store.get("b"), Some("2".to_string()));
    let d = HighDensityContextStore::default();
    assert!(d.is_empty());
}

#[test]
fn test_blackboard_convergence() {
    let mut bb = HighDensityContextStore::new(100);
    if !bb.contains_key("SusiTier2SwarmAgent") {
        bb.insert("SusiTier2SwarmAgent".into(), "Converged".into());
    }
    assert!(bb.contains_key("SusiTier2SwarmAgent"));
}
