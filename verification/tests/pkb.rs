use susi::error::EaiError;
use susi::gawd::ProtocolKnowledgeBase;

#[test]
fn test_consolidate_recent_interactions_keeps_long_successes() {
    let long = "x".repeat(120);
    let memory = format!(
        "{{\"intent\":\"build\",\"outcome\":\"{}\"}}\n{{\"intent\":\"short\",\"outcome\":\"ok\"}}\nnot json\n{{\"outcome\":\"[FAIL] {}\"}}\n{{\"outcome\":\"{}\"}}\n",
        long, long, long
    );
    let pairs = ProtocolKnowledgeBase::consolidate_recent_interactions(&memory);
    assert_eq!(pairs, vec![("build".to_string(), long.clone()), (String::new(), long.clone())]);
    assert!(ProtocolKnowledgeBase::consolidate_recent_interactions("").is_empty());
}

#[test]
fn test_consolidate_counts_bytes() {
    let outcome = "é".repeat(51);
    let memory = format!("{{\"intent\":\"i\",\"outcome\":\"{}\"}}", outcome);
    assert_eq!(ProtocolKnowledgeBase::consolidate_recent_interactions(&memory).len(), 1);
    let outcome = "é".repeat(50);
    let memory = format!("{{\"intent\":\"i\",\"outcome\":\"{}\"}}", outcome);
    assert!(ProtocolKnowledgeBase::consolidate_recent_interactions(&memory).is_empty());
}

#[test]
fn test_reflex_dataset_and_paths() {
    let log = "[MISSION_START] deploy the cluster\nnoise\n[MISSION_START] hi\n";
    let data = ProtocolKnowledgeBase::reflex_dataset(log);
    assert_eq!(data.len(), 3);
    assert_eq!(data[0].intent, "install");
    assert_eq!(data[2].intent, "deploy the cluster");
    assert!(!data[2].verified);
    assert_eq!(ProtocolKnowledgeBase::export_report(3, "/w/.susi/reflex_dataset.json"), "Exported 3 neural reflexes to /w/.susi/reflex_dataset.json");
    assert_eq!(ProtocolKnowledgeBase::reflex_binary_path("open the door"), ".susi/reflexes/open_the_door.bin");
}

#[test]
fn test_list_reflex_weights_and_verification() {
    let files: Vec<String> = ["a.gguf", "notes.txt", "b.safetensors"].iter().map(|s| s.to_string()).collect();
    assert_eq!(
        ProtocolKnowledgeBase::list_reflex_weights(&files, true),
        vec!["a.gguf".to_string(), "b.safetensors".to_string(), "target/release/susi-alpha.safetensors".to_string()]
    );
    assert_eq!(ProtocolKnowledgeBase::list_reflex_weights(&files, false).len(), 2);
    assert_eq!(
        ProtocolKnowledgeBase::verify_alpha_substrate("/m/susi-alpha.safetensors", Some(42)).unwrap(),
        "SUSI-Alpha Substrate Verified: /m/susi-alpha.safetensors (42 bytes)"
    );
    match ProtocolKnowledgeBase::verify_alpha_substrate("/m/x", None) {
        Err(EaiError::Inference(m)) => assert_eq!(m, "SUSI-Alpha weights missing. Run 'susi install'."),
        other => panic!("unexpected {:?}", other),
    }
}

#[test]
fn test_generate_synthetic_intent_pair() {
    assert_eq!(
        ProtocolKnowledgeBase::generate_synthetic_intent_pair("ls", Some("Safety clearance granted."), Some("ACTION: list_directory /w")),
        "INTENT: ls\nREFLEX_GUARD (SafetyAgent): Safety clearance granted.\nFINAL_ACTION: ACTION: list_directory /w\n"
    );
    assert_eq!(
        ProtocolKnowledgeBase::generate_synthetic_intent_pair("x", None, None),
        "INTENT: x\nFINAL_ACTION: ACTION: status\n"
    );
}
