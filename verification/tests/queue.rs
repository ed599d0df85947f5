use susi::queue::SubstratePulseQueue;

#[test]
fn urgent_intents_jump_the_queue_in_arrival_order() {
    let mut q = SubstratePulseQueue::new();
    assert!(q.is_empty());
    q.ingest("build the docs", "/ws", "1.0").unwrap();
    q.ingest("STOP everything", "/ws", "1.0").unwrap();
    q.ingest("deploy", "/ws", "1.0").unwrap();
    q.ingest("apply correction", "/ws", "1.0").unwrap();
    assert!(!q.is_empty());
    let order: Vec<(String, u8)> = std::iter::from_fn(|| q.pop()).map(|e| (e.intent, e.priority)).collect();
    assert_eq!(
        order,
        vec![
            ("STOP everything".to_string(), 1),
            ("apply correction".to_string(), 1),
            ("build the docs".to_string(), 0),
            ("deploy".to_string(), 0),
        ]
    );
    assert!(q.pop().is_none());
}

#[test]
fn clear_drops_everything() {
    let mut q = SubstratePulseQueue::new();
    q.ingest("wait here", "/a", "2").unwrap();
    q.ingest("go", "/b", "2").unwrap();
    q.clear();
    assert!(q.is_empty());
    assert!(q.pop().is_none());
}
